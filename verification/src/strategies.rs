//! Action to strategy-chain registry with per-vendor overrides, and the runs of its strategies.

use crate::cec::types::{copy_bytes, opcode_name, opcode_text, Keycode, LogicalAddress, Opcode};
use crate::json;
use crate::json::JsonV;
use crate::text;
use crate::types::{frame_views, BusFrameEntry, FrameV};
use vstd::prelude::*;

verus! {

// ---------------------------------------------------------------------------
// Actions
// ---------------------------------------------------------------------------

/// Something a remote control can do.
#[derive(Debug, Clone, Copy, PartialEq, Eq, Hash, Structural)]
pub enum Action {
    VolumeUp,
    VolumeDown,
    Mute,
    NavUp,
    NavDown,
    NavLeft,
    NavRight,
    Select,
    Back,
    Home,
    Menu,
    ChannelUp,
    ChannelDown,
    Play,
    Pause,
    Stop,
    FastForward,
    Rewind,
    Record,
    Power,
    Number(u8),
}

/// The names of all actions, in the order of [`action_at`].
pub const ACTION_NAMES: [&'static str; 30] = [
    "volume_up",
    "volume_down",
    "mute",
    "nav_up",
    "nav_down",
    "nav_left",
    "nav_right",
    "select",
    "back",
    "home",
    "menu",
    "channel_up",
    "channel_down",
    "play",
    "pause",
    "stop",
    "fast_forward",
    "rewind",
    "record",
    "power",
    "number_0",
    "number_1",
    "number_2",
    "number_3",
    "number_4",
    "number_5",
    "number_6",
    "number_7",
    "number_8",
    "number_9",
];

/// The action at a position of [`ACTION_NAMES`].
pub open spec fn action_at(i: int) -> Action {
    if i == 0 {
        Action::VolumeUp
    } else if i == 1 {
        Action::VolumeDown
    } else if i == 2 {
        Action::Mute
    } else if i == 3 {
        Action::NavUp
    } else if i == 4 {
        Action::NavDown
    } else if i == 5 {
        Action::NavLeft
    } else if i == 6 {
        Action::NavRight
    } else if i == 7 {
        Action::Select
    } else if i == 8 {
        Action::Back
    } else if i == 9 {
        Action::Home
    } else if i == 10 {
        Action::Menu
    } else if i == 11 {
        Action::ChannelUp
    } else if i == 12 {
        Action::ChannelDown
    } else if i == 13 {
        Action::Play
    } else if i == 14 {
        Action::Pause
    } else if i == 15 {
        Action::Stop
    } else if i == 16 {
        Action::FastForward
    } else if i == 17 {
        Action::Rewind
    } else if i == 18 {
        Action::Record
    } else if i == 19 {
        Action::Power
    } else {
        Action::Number((i - 20) as u8)
    }
}

/// The position of an action in [`ACTION_NAMES`]; an action that is not there has none.
pub open spec fn action_index(a: Action) -> Option<int> {
    match a {
        Action::VolumeUp => Some(0),
        Action::VolumeDown => Some(1),
        Action::Mute => Some(2),
        Action::NavUp => Some(3),
        Action::NavDown => Some(4),
        Action::NavLeft => Some(5),
        Action::NavRight => Some(6),
        Action::Select => Some(7),
        Action::Back => Some(8),
        Action::Home => Some(9),
        Action::Menu => Some(10),
        Action::ChannelUp => Some(11),
        Action::ChannelDown => Some(12),
        Action::Play => Some(13),
        Action::Pause => Some(14),
        Action::Stop => Some(15),
        Action::FastForward => Some(16),
        Action::Rewind => Some(17),
        Action::Record => Some(18),
        Action::Power => Some(19),
        Action::Number(n) => if n <= 9 {
            Some(n as int + 20)
        } else {
            None
        },
    }
}

fn nth_action(i: usize) -> (r: Action)
    requires
        i < 30,
    ensures
        r == action_at(i as int),
{
    match i {
        0 => Action::VolumeUp,
        1 => Action::VolumeDown,
        2 => Action::Mute,
        3 => Action::NavUp,
        4 => Action::NavDown,
        5 => Action::NavLeft,
        6 => Action::NavRight,
        7 => Action::Select,
        8 => Action::Back,
        9 => Action::Home,
        10 => Action::Menu,
        11 => Action::ChannelUp,
        12 => Action::ChannelDown,
        13 => Action::Play,
        14 => Action::Pause,
        15 => Action::Stop,
        16 => Action::FastForward,
        17 => Action::Rewind,
        18 => Action::Record,
        19 => Action::Power,
        _ => Action::Number((i - 20) as u8),
    }
}

/// Every action with its name.
pub fn all_actions() -> (r: Vec<(&'static str, Action)>)
    ensures
        r@.len() == 30,
        forall|i: int|
            0 <= i < 30 ==> (#[trigger] r@[i]).0@ == ACTION_NAMES@[i]@ && r@[i].1 == action_at(i),
{
    let mut out: Vec<(&'static str, Action)> = Vec::new();
    let mut i: usize = 0;
    while i < 30
        invariant
            i <= 30 == ACTION_NAMES@.len(),
            out@.len() == i,
            forall|j: int|
                0 <= j < i ==> (#[trigger] out@[j]).0@ == ACTION_NAMES@[j]@ && out@[j].1
                    == action_at(j),
        decreases 30 - i,
    {
        let name: &'static str = ACTION_NAMES[i];
        out.push((name, nth_action(i)));
        i += 1;
    }
    out
}

/// The name of an action; an action without one is "unknown".
pub open spec fn action_text(a: Action) -> Seq<char> {
    match action_index(a) {
        Some(i) => ACTION_NAMES@[i]@,
        None => "unknown"@,
    }
}

/// The position of a name in [`ACTION_NAMES`], from entry `i` on.
pub open spec fn action_name_from(name: Seq<char>, i: int) -> Option<int>
    decreases ACTION_NAMES@.len() - i,
{
    if i < 0 || i >= ACTION_NAMES@.len() {
        None
    } else if ACTION_NAMES@[i]@ == name {
        Some(i)
    } else {
        action_name_from(name, i + 1)
    }
}

/// The action of a canonical name.
pub open spec fn action_named(name: Seq<char>) -> Option<Action> {
    match action_name_from(name, 0) {
        Some(i) => Some(action_at(i)),
        None => None,
    }
}

/// A dash or a space reads as an underscore.
pub open spec fn underscored(s: Seq<char>) -> Seq<char> {
    s.map_values(|c: char| if c == '-' || c == ' ' { '_' } else { c })
}

/// The canonical form of an action name that someone wrote.
pub open spec fn action_form(s: Seq<char>) -> Seq<char> {
    underscored(text::lower(text::trimmed(s)))
}

/// Writes underscores for dashes and spaces.
pub fn underscore(s: &str) -> (r: String)
    ensures
        r@ == underscored(s@),
{
    let cs = text::chars_of(s);
    let mut out = String::new();
    let mut i: usize = 0;
    while i < cs.len()
        invariant
            i <= cs@.len(),
            cs@ == s@,
            out@ == underscored(cs@.take(i as int)),
        decreases cs@.len() - i,
    {
        let c = cs[i];
        out.push(if c == '-' || c == ' ' { '_' } else { c });
        i += 1;
        assert(out@ =~= underscored(cs@.take(i as int)));
    }
    assert(cs@.take(i as int) =~= s@);
    out
}

impl Action {
    pub fn as_str(self) -> (r: &'static str)
        ensures
            r@ == action_text(self),
    {
        let i: usize = match self {
            Action::VolumeUp => 0,
            Action::VolumeDown => 1,
            Action::Mute => 2,
            Action::NavUp => 3,
            Action::NavDown => 4,
            Action::NavLeft => 5,
            Action::NavRight => 6,
            Action::Select => 7,
            Action::Back => 8,
            Action::Home => 9,
            Action::Menu => 10,
            Action::ChannelUp => 11,
            Action::ChannelDown => 12,
            Action::Play => 13,
            Action::Pause => 14,
            Action::Stop => 15,
            Action::FastForward => 16,
            Action::Rewind => 17,
            Action::Record => 18,
            Action::Power => 19,
            Action::Number(n) => if n <= 9 {
                n as usize + 20
            } else {
                return "unknown";
            },
        };
        ACTION_NAMES[i]
    }

    /// The action of a name, whatever its case, with dashes or spaces for underscores.
    pub fn parse(s: &str) -> (r: Option<Action>)
        ensures
            r == action_named(action_form(s@)),
    {
        let norm = underscore(text::to_lowercase(text::trim(s)).as_str());
        let mut i: usize = 0;
        while i < 30
            invariant
                i <= 30 == ACTION_NAMES@.len(),
                norm@ == action_form(s@),
                action_name_from(norm@, 0) == action_name_from(norm@, i as int),
            decreases 30 - i,
        {
            let name: &'static str = ACTION_NAMES[i];
            if text::str_eq(name, norm.as_str()) {
                return Some(nth_action(i));
            }
            i += 1;
        }
        None
    }
}

// ---------------------------------------------------------------------------
// Steps and strategies
// ---------------------------------------------------------------------------

/// What one step of a strategy does.
#[derive(Debug, Clone, Copy, PartialEq, Eq, Structural)]
pub enum StepKind {
    SendUserControl,
    Transmit,
    LibcecVolumeUp,
    LibcecVolumeDown,
    LibcecMute,
    LibcecPowerOn,
    LibcecStandby,
    EnableSam,
    Wait,
}

/// The name of a step kind.
pub open spec fn step_kind_text(k: StepKind) -> Seq<char> {
    match k {
        StepKind::SendUserControl => "send_user_control"@,
        StepKind::Transmit => "transmit"@,
        StepKind::LibcecVolumeUp => "libcec_volume_up"@,
        StepKind::LibcecVolumeDown => "libcec_volume_down"@,
        StepKind::LibcecMute => "libcec_mute"@,
        StepKind::LibcecPowerOn => "libcec_power_on"@,
        StepKind::LibcecStandby => "libcec_standby"@,
        StepKind::EnableSam => "enable_sam"@,
        StepKind::Wait => "wait"@,
    }
}

impl StepKind {
    pub fn as_str(self) -> (r: &'static str)
        ensures
            r@ == step_kind_text(self),
    {
        match self {
            StepKind::SendUserControl => "send_user_control",
            StepKind::Transmit => "transmit",
            StepKind::LibcecVolumeUp => "libcec_volume_up",
            StepKind::LibcecVolumeDown => "libcec_volume_down",
            StepKind::LibcecMute => "libcec_mute",
            StepKind::LibcecPowerOn => "libcec_power_on",
            StepKind::LibcecStandby => "libcec_standby",
            StepKind::EnableSam => "enable_sam",
            StepKind::Wait => "wait",
        }
    }
}

/// One step of a strategy.
#[derive(Debug)]
pub struct Step {
    pub kind: StepKind,
    pub target: LogicalAddress,
    pub key: Keycode,
    pub wait: bool,
    pub hold_ms: i64,
    pub opcode: Opcode,
    pub params: Vec<u8>,
    pub delay_ms: i64,
}

/// What a [`Step`] holds.
pub struct StepV {
    pub kind: StepKind,
    pub target: u8,
    pub key: u8,
    pub wait: bool,
    pub hold_ms: int,
    pub opcode: u8,
    pub params: Seq<u8>,
    pub delay_ms: int,
}

impl View for Step {
    type V = StepV;

    open spec fn view(&self) -> StepV {
        StepV {
            kind: self.kind,
            target: self.target.0,
            key: self.key.0,
            wait: self.wait,
            hold_ms: self.hold_ms as int,
            opcode: self.opcode.0,
            params: self.params@,
            delay_ms: self.delay_ms as int,
        }
    }
}

impl Clone for Step {
    fn clone(&self) -> (r: Step)
        ensures
            r@ == self@,
    {
        Step {
            kind: self.kind,
            target: self.target,
            key: self.key,
            wait: self.wait,
            hold_ms: self.hold_ms,
            opcode: self.opcode,
            params: copy_bytes(&self.params),
            delay_ms: self.delay_ms,
        }
    }
}

/// What a list of steps holds.
pub open spec fn step_views(v: Seq<Step>) -> Seq<StepV> {
    v.map_values(|s: Step| s@)
}

/// A way to carry out an action: steps, and a time to watch the bus for the outcome.
#[derive(Debug)]
pub struct Strategy {
    pub name: String,
    pub steps: Vec<Step>,
    pub observe_ms: i64,
}

/// What a [`Strategy`] holds.
pub struct StrategyV {
    pub name: Seq<char>,
    pub steps: Seq<StepV>,
    pub observe_ms: int,
}

impl View for Strategy {
    type V = StrategyV;

    open spec fn view(&self) -> StrategyV {
        StrategyV {
            name: self.name@,
            steps: step_views(self.steps@),
            observe_ms: self.observe_ms as int,
        }
    }
}

/// What a list of strategies holds.
pub open spec fn strategy_views(v: Seq<Strategy>) -> Seq<StrategyV> {
    v.map_values(|s: Strategy| s@)
}

fn copy_steps(v: &Vec<Step>) -> (r: Vec<Step>)
    ensures
        step_views(r@) == step_views(v@),
{
    let mut out: Vec<Step> = Vec::new();
    let mut i: usize = 0;
    while i < v.len()
        invariant
            i <= v@.len(),
            step_views(out@) == step_views(v@).take(i as int),
        decreases v@.len() - i,
    {
        let ghost before = out@;
        out.push(v[i].clone());
        i += 1;
        assert(step_views(out@) =~= step_views(before).push(v@[i - 1]@));
        assert(step_views(out@) =~= step_views(v@).take(i as int));
    }
    assert(step_views(v@).take(i as int) =~= step_views(v@));
    out
}

impl Clone for Strategy {
    fn clone(&self) -> (r: Strategy)
        ensures
            r@ == self@,
    {
        Strategy {
            name: self.name.clone(),
            steps: copy_steps(&self.steps),
            observe_ms: self.observe_ms,
        }
    }
}

fn copy_strategies(v: &Vec<Strategy>) -> (r: Vec<Strategy>)
    ensures
        strategy_views(r@) == strategy_views(v@),
{
    let mut out: Vec<Strategy> = Vec::new();
    let mut i: usize = 0;
    while i < v.len()
        invariant
            i <= v@.len(),
            strategy_views(out@) == strategy_views(v@).take(i as int),
        decreases v@.len() - i,
    {
        let ghost before = out@;
        out.push(v[i].clone());
        i += 1;
        assert(strategy_views(out@) =~= strategy_views(before).push(v@[i - 1]@));
        assert(strategy_views(out@) =~= strategy_views(v@).take(i as int));
    }
    assert(strategy_views(v@).take(i as int) =~= strategy_views(v@));
    out
}

// ---------------------------------------------------------------------------
// Default strategies
// ---------------------------------------------------------------------------

/// How long a volume key is held, in milliseconds.
pub const VOL_HOLD: i64 = 250;

/// How long a navigation key is held, in milliseconds.
pub const NAV_HOLD: i64 = 100;

/// A step that only has a kind.
pub open spec fn plain_step(kind: StepKind) -> StepV {
    StepV {
        kind,
        target: LogicalAddress::UNKNOWN,
        key: 0,
        wait: false,
        hold_ms: 0,
        opcode: 0,
        params: Seq::empty(),
        delay_ms: 0,
    }
}

/// A step that presses a key on a device and waits for the acknowledgement.
pub open spec fn press_step(target: u8, key: u8, hold_ms: int) -> StepV {
    StepV {
        kind: StepKind::SendUserControl,
        target,
        key,
        wait: true,
        hold_ms,
        opcode: 0,
        params: Seq::empty(),
        delay_ms: 0,
    }
}

/// The strategy of one key press.
pub open spec fn press(name: Seq<char>, target: u8, key: u8, hold_ms: int) -> StrategyV {
    StrategyV { name, steps: seq![press_step(target, key, hold_ms)], observe_ms: 0 }
}

/// The strategy of one libcec call.
pub open spec fn libcec(name: Seq<char>, kind: StepKind) -> StrategyV {
    StrategyV { name, steps: seq![plain_step(kind)], observe_ms: 0 }
}

/// The strategies that an action has where nothing else is configured.
pub open spec fn default_chain_of(a: Action) -> Seq<StrategyV> {
    let any = LogicalAddress::UNKNOWN;
    let nav = NAV_HOLD as int;
    let vol = VOL_HOLD as int;
    match a {
        Action::VolumeUp => seq![
            press("uc_volume_up_audio"@, LogicalAddress::AUDIO_SYSTEM, Keycode::VOLUME_UP, vol),
            press("uc_volume_up_tv"@, LogicalAddress::TV, Keycode::VOLUME_UP, vol),
            press(
                "uc_volume_up_playback1"@,
                LogicalAddress::PLAYBACK_DEVICE_1,
                Keycode::VOLUME_UP,
                vol,
            ),
            libcec("libcec_volume_up"@, StepKind::LibcecVolumeUp),
        ],
        Action::VolumeDown => seq![
            press("uc_volume_down_audio"@, LogicalAddress::AUDIO_SYSTEM, Keycode::VOLUME_DOWN, vol),
            press("uc_volume_down_tv"@, LogicalAddress::TV, Keycode::VOLUME_DOWN, vol),
            press(
                "uc_volume_down_playback1"@,
                LogicalAddress::PLAYBACK_DEVICE_1,
                Keycode::VOLUME_DOWN,
                vol,
            ),
            libcec("libcec_volume_down"@, StepKind::LibcecVolumeDown),
        ],
        Action::Mute => seq![
            press("uc_mute_audio"@, LogicalAddress::AUDIO_SYSTEM, Keycode::MUTE, vol),
            press("uc_mute_tv"@, LogicalAddress::TV, Keycode::MUTE, vol),
            libcec("libcec_mute"@, StepKind::LibcecMute),
        ],
        Action::NavUp => seq![press("uc_up_target"@, any, Keycode::UP, nav)],
        Action::NavDown => seq![press("uc_down_target"@, any, Keycode::DOWN, nav)],
        Action::NavLeft => seq![press("uc_left_target"@, any, Keycode::LEFT, nav)],
        Action::NavRight => seq![press("uc_right_target"@, any, Keycode::RIGHT, nav)],
        Action::Select => seq![press("uc_select_target"@, any, Keycode::SELECT, nav)],
        Action::Back => seq![press("uc_back_target"@, any, Keycode::EXIT, nav)],
        Action::Home => seq![press("uc_home_target"@, any, Keycode::ROOT_MENU, nav)],
        Action::Menu => seq![press("uc_menu_target"@, any, Keycode::SETUP_MENU, nav)],
        Action::ChannelUp => seq![
            press("uc_channel_up_tuner1"@, LogicalAddress::TUNER_1, Keycode::CHANNEL_UP, nav),
            press("uc_channel_up_target"@, any, Keycode::CHANNEL_UP, nav),
        ],
        Action::ChannelDown => seq![
            press("uc_channel_down_tuner1"@, LogicalAddress::TUNER_1, Keycode::CHANNEL_DOWN, nav),
            press("uc_channel_down_target"@, any, Keycode::CHANNEL_DOWN, nav),
        ],
        Action::Play => seq![press("uc_play_target"@, any, Keycode::PLAY, 0)],
        Action::Pause => seq![press("uc_pause_target"@, any, Keycode::PAUSE, 0)],
        Action::Stop => seq![press("uc_stop_target"@, any, Keycode::STOP, 0)],
        Action::FastForward => seq![press("uc_ff_target"@, any, Keycode::FAST_FORWARD, 0)],
        Action::Rewind => seq![press("uc_rew_target"@, any, Keycode::REWIND, 0)],
        Action::Record => seq![press("uc_record_target"@, any, Keycode::RECORD, 0)],
        Action::Power => seq![
            libcec("libcec_power_on_target"@, StepKind::LibcecPowerOn),
            press("uc_power_target"@, any, Keycode::POWER, nav),
        ],
        Action::Number(n) => if n <= 9 {
            seq![
                press(
                    "uc_"@ + text::dec(n as nat) + "_target"@,
                    any,
                    (Keycode::K0 + n) as u8,
                    nav,
                ),
            ]
        } else {
            Seq::empty()
        },
    }
}

fn uc_press(name: &str, target: u8, key: u8, hold_ms: i64) -> (r: Strategy)
    ensures
        r@ == press(name@, target, key, hold_ms as int),
{
    let mut steps: Vec<Step> = Vec::new();
    steps.push(
        Step {
            kind: StepKind::SendUserControl,
            target: LogicalAddress(target),
            key: Keycode(key),
            wait: true,
            hold_ms,
            opcode: Opcode(0),
            params: Vec::new(),
            delay_ms: 0,
        },
    );
    let r = Strategy { name: name.to_owned(), steps, observe_ms: 0 };
    assert(r.steps@[0]@ == press_step(target, key, hold_ms as int));
    assert(r@.steps =~= seq![press_step(target, key, hold_ms as int)]);
    r
}

fn libcec_call(name: &str, kind: StepKind) -> (r: Strategy)
    ensures
        r@ == libcec(name@, kind),
{
    let mut steps: Vec<Step> = Vec::new();
    steps.push(
        Step {
            kind,
            target: LogicalAddress(LogicalAddress::UNKNOWN),
            key: Keycode(0),
            wait: false,
            hold_ms: 0,
            opcode: Opcode(0),
            params: Vec::new(),
            delay_ms: 0,
        },
    );
    let r = Strategy { name: name.to_owned(), steps, observe_ms: 0 };
    assert(r.steps@[0]@ == plain_step(kind));
    assert(r@.steps =~= seq![plain_step(kind)]);
    r
}

fn one(s: Strategy) -> (r: Vec<Strategy>)
    ensures
        strategy_views(r@) == seq![s@],
{
    let mut v: Vec<Strategy> = Vec::new();
    v.push(s);
    assert(strategy_views(v@) =~= seq![s@]);
    v
}

fn two(a: Strategy, b: Strategy) -> (r: Vec<Strategy>)
    ensures
        strategy_views(r@) == seq![a@, b@],
{
    let mut v: Vec<Strategy> = Vec::new();
    v.push(a);
    v.push(b);
    assert(strategy_views(v@) =~= seq![a@, b@]);
    v
}

fn three(a: Strategy, b: Strategy, c: Strategy) -> (r: Vec<Strategy>)
    ensures
        strategy_views(r@) == seq![a@, b@, c@],
{
    let mut v: Vec<Strategy> = Vec::new();
    v.push(a);
    v.push(b);
    v.push(c);
    assert(strategy_views(v@) =~= seq![a@, b@, c@]);
    v
}

fn four(a: Strategy, b: Strategy, c: Strategy, d: Strategy) -> (r: Vec<Strategy>)
    ensures
        strategy_views(r@) == seq![a@, b@, c@, d@],
{
    let mut v: Vec<Strategy> = Vec::new();
    v.push(a);
    v.push(b);
    v.push(c);
    v.push(d);
    assert(strategy_views(v@) =~= seq![a@, b@, c@, d@]);
    v
}

/// The strategies that an action has where nothing else is configured.
pub fn default_strategies(action: Action) -> (r: Vec<Strategy>)
    ensures
        strategy_views(r@) == default_chain_of(action),
{
    let any: u8 = LogicalAddress::UNKNOWN;
    match action {
        Action::VolumeUp => four(
            uc_press(
                "uc_volume_up_audio",
                LogicalAddress::AUDIO_SYSTEM,
                Keycode::VOLUME_UP,
                VOL_HOLD,
            ),
            uc_press("uc_volume_up_tv", LogicalAddress::TV, Keycode::VOLUME_UP, VOL_HOLD),
            uc_press(
                "uc_volume_up_playback1",
                LogicalAddress::PLAYBACK_DEVICE_1,
                Keycode::VOLUME_UP,
                VOL_HOLD,
            ),
            libcec_call("libcec_volume_up", StepKind::LibcecVolumeUp),
        ),
        Action::VolumeDown => four(
            uc_press(
                "uc_volume_down_audio",
                LogicalAddress::AUDIO_SYSTEM,
                Keycode::VOLUME_DOWN,
                VOL_HOLD,
            ),
            uc_press("uc_volume_down_tv", LogicalAddress::TV, Keycode::VOLUME_DOWN, VOL_HOLD),
            uc_press(
                "uc_volume_down_playback1",
                LogicalAddress::PLAYBACK_DEVICE_1,
                Keycode::VOLUME_DOWN,
                VOL_HOLD,
            ),
            libcec_call("libcec_volume_down", StepKind::LibcecVolumeDown),
        ),
        Action::Mute => three(
            uc_press("uc_mute_audio", LogicalAddress::AUDIO_SYSTEM, Keycode::MUTE, VOL_HOLD),
            uc_press("uc_mute_tv", LogicalAddress::TV, Keycode::MUTE, VOL_HOLD),
            libcec_call("libcec_mute", StepKind::LibcecMute),
        ),
        Action::NavUp => one(uc_press("uc_up_target", any, Keycode::UP, NAV_HOLD)),
        Action::NavDown => one(uc_press("uc_down_target", any, Keycode::DOWN, NAV_HOLD)),
        Action::NavLeft => one(uc_press("uc_left_target", any, Keycode::LEFT, NAV_HOLD)),
        Action::NavRight => one(uc_press("uc_right_target", any, Keycode::RIGHT, NAV_HOLD)),
        Action::Select => one(uc_press("uc_select_target", any, Keycode::SELECT, NAV_HOLD)),
        Action::Back => one(uc_press("uc_back_target", any, Keycode::EXIT, NAV_HOLD)),
        Action::Home => one(uc_press("uc_home_target", any, Keycode::ROOT_MENU, NAV_HOLD)),
        Action::Menu => one(uc_press("uc_menu_target", any, Keycode::SETUP_MENU, NAV_HOLD)),
        Action::ChannelUp => two(
            uc_press(
                "uc_channel_up_tuner1",
                LogicalAddress::TUNER_1,
                Keycode::CHANNEL_UP,
                NAV_HOLD,
            ),
            uc_press("uc_channel_up_target", any, Keycode::CHANNEL_UP, NAV_HOLD),
        ),
        Action::ChannelDown => two(
            uc_press(
                "uc_channel_down_tuner1",
                LogicalAddress::TUNER_1,
                Keycode::CHANNEL_DOWN,
                NAV_HOLD,
            ),
            uc_press("uc_channel_down_target", any, Keycode::CHANNEL_DOWN, NAV_HOLD),
        ),
        Action::Play => one(uc_press("uc_play_target", any, Keycode::PLAY, 0)),
        Action::Pause => one(uc_press("uc_pause_target", any, Keycode::PAUSE, 0)),
        Action::Stop => one(uc_press("uc_stop_target", any, Keycode::STOP, 0)),
        Action::FastForward => one(uc_press("uc_ff_target", any, Keycode::FAST_FORWARD, 0)),
        Action::Rewind => one(uc_press("uc_rew_target", any, Keycode::REWIND, 0)),
        Action::Record => one(uc_press("uc_record_target", any, Keycode::RECORD, 0)),
        Action::Power => two(
            libcec_call("libcec_power_on_target", StepKind::LibcecPowerOn),
            uc_press("uc_power_target", any, Keycode::POWER, NAV_HOLD),
        ),
        Action::Number(n) => {
            if n > 9 {
                let v: Vec<Strategy> = Vec::new();
                assert(strategy_views(v@) =~= Seq::empty());
                return v;
            }
            let name = text::concat3("uc_", text::dec_u64(n as u64).as_str(), "_target");
            one(uc_press(name.as_str(), any, Keycode::K0 + n, NAV_HOLD))
        },
    }
}

/// Every action has a default strategy, and no default strategy is without steps.
pub proof fn law_default_chains_cover_every_action(i: int)
    requires
        0 <= i < ACTION_NAMES@.len(),
    ensures
        default_chain_of(action_at(i)).len() > 0,
        forall|k: int|
            0 <= k < default_chain_of(action_at(i)).len() ==> (#[trigger] default_chain_of(
                action_at(i),
            )[k]).steps.len() > 0,
{
}

// ---------------------------------------------------------------------------
// Action names
// ---------------------------------------------------------------------------

/// A number that tells the action names apart, read off their length and three of their
/// characters.
spec fn action_mark(s: Seq<char>) -> int {
    s.len() * 1000000 + s[0] as int + s[s.len() as int / 2] as int * 11 + s.last() as int * 1000
}

/// A lowercase letter, a digit or an underscore.
pub open spec fn plain_char(c: char) -> bool {
    'a' <= c <= 'z' || '0' <= c <= '9' || c == '_'
}

/// One or more plain characters and nothing else.
pub open spec fn plain_name(s: Seq<char>) -> bool {
    s.len() > 0 && forall|i: int| 0 <= i < s.len() ==> plain_char(#[trigger] s[i])
}

/// The position of an action name in the table, by its mark.
spec fn action_rank(s: Seq<char>) -> int {
    let m = action_mark(s);
    if m == 9113317 {
        0
    } else if m == 11111229 {
        1
    } else if m == 4102385 {
        2
    } else if m == 6113155 {
        3
    } else if m == 8111210 {
        4
    } else if m == 8117298 {
        5
    } else if m == 9117364 {
        6
    } else if m == 6117226 {
        7
    } else if m == 4108187 {
        8
    } else if m == 4102303 {
        9
    } else if m == 4118319 {
        10
    } else if m == 10113210 {
        11
    } else if m == 12111287 {
        12
    } else if m == 4122179 {
        13
    } else if m == 5102399 {
        14
    } else if m == 4113336 {
        15
    } else if m == 12101323 {
        16
    } else if m == 6101269 {
        17
    } else if m == 6101335 {
        18
    } else if m == 5115421 {
        19
    } else if m == 8049221 {
        20
    } else if m == 8050221 {
        21
    } else if m == 8051221 {
        22
    } else if m == 8052221 {
        23
    } else if m == 8053221 {
        24
    } else if m == 8054221 {
        25
    } else if m == 8055221 {
        26
    } else if m == 8056221 {
        27
    } else if m == 8057221 {
        28
    } else if m == 8058221 {
        29
    } else {
        30
    }
}

proof fn lemma_action_ranks_0(i: int)
    requires
        0 <= i < 10,
    ensures
        action_rank(ACTION_NAMES@[i]@) == i,
        plain_name(ACTION_NAMES@[i]@),
{
    if i == 0 {
        reveal_strlit("volume_up");
        assert(ACTION_NAMES@[0]@ == "volume_up"@);
    } else if i == 1 {
        reveal_strlit("volume_down");
        assert(ACTION_NAMES@[1]@ == "volume_down"@);
    } else if i == 2 {
        reveal_strlit("mute");
        assert(ACTION_NAMES@[2]@ == "mute"@);
    } else if i == 3 {
        reveal_strlit("nav_up");
        assert(ACTION_NAMES@[3]@ == "nav_up"@);
    } else if i == 4 {
        reveal_strlit("nav_down");
        assert(ACTION_NAMES@[4]@ == "nav_down"@);
    } else if i == 5 {
        reveal_strlit("nav_left");
        assert(ACTION_NAMES@[5]@ == "nav_left"@);
    } else if i == 6 {
        reveal_strlit("nav_right");
        assert(ACTION_NAMES@[6]@ == "nav_right"@);
    } else if i == 7 {
        reveal_strlit("select");
        assert(ACTION_NAMES@[7]@ == "select"@);
    } else if i == 8 {
        reveal_strlit("back");
        assert(ACTION_NAMES@[8]@ == "back"@);
    } else if i == 9 {
        reveal_strlit("home");
        assert(ACTION_NAMES@[9]@ == "home"@);
    }
}

proof fn lemma_action_ranks_10(i: int)
    requires
        10 <= i < 20,
    ensures
        action_rank(ACTION_NAMES@[i]@) == i,
        plain_name(ACTION_NAMES@[i]@),
{
    if i == 10 {
        reveal_strlit("menu");
        assert(ACTION_NAMES@[10]@ == "menu"@);
    } else if i == 11 {
        reveal_strlit("channel_up");
        assert(ACTION_NAMES@[11]@ == "channel_up"@);
    } else if i == 12 {
        reveal_strlit("channel_down");
        assert(ACTION_NAMES@[12]@ == "channel_down"@);
    } else if i == 13 {
        reveal_strlit("play");
        assert(ACTION_NAMES@[13]@ == "play"@);
    } else if i == 14 {
        reveal_strlit("pause");
        assert(ACTION_NAMES@[14]@ == "pause"@);
    } else if i == 15 {
        reveal_strlit("stop");
        assert(ACTION_NAMES@[15]@ == "stop"@);
    } else if i == 16 {
        reveal_strlit("fast_forward");
        assert(ACTION_NAMES@[16]@ == "fast_forward"@);
    } else if i == 17 {
        reveal_strlit("rewind");
        assert(ACTION_NAMES@[17]@ == "rewind"@);
    } else if i == 18 {
        reveal_strlit("record");
        assert(ACTION_NAMES@[18]@ == "record"@);
    } else if i == 19 {
        reveal_strlit("power");
        assert(ACTION_NAMES@[19]@ == "power"@);
    }
}

proof fn lemma_action_ranks_20(i: int)
    requires
        20 <= i < 30,
    ensures
        action_rank(ACTION_NAMES@[i]@) == i,
        plain_name(ACTION_NAMES@[i]@),
{
    if i == 20 {
        reveal_strlit("number_0");
        assert(ACTION_NAMES@[20]@ == "number_0"@);
    } else if i == 21 {
        reveal_strlit("number_1");
        assert(ACTION_NAMES@[21]@ == "number_1"@);
    } else if i == 22 {
        reveal_strlit("number_2");
        assert(ACTION_NAMES@[22]@ == "number_2"@);
    } else if i == 23 {
        reveal_strlit("number_3");
        assert(ACTION_NAMES@[23]@ == "number_3"@);
    } else if i == 24 {
        reveal_strlit("number_4");
        assert(ACTION_NAMES@[24]@ == "number_4"@);
    } else if i == 25 {
        reveal_strlit("number_5");
        assert(ACTION_NAMES@[25]@ == "number_5"@);
    } else if i == 26 {
        reveal_strlit("number_6");
        assert(ACTION_NAMES@[26]@ == "number_6"@);
    } else if i == 27 {
        reveal_strlit("number_7");
        assert(ACTION_NAMES@[27]@ == "number_7"@);
    } else if i == 28 {
        reveal_strlit("number_8");
        assert(ACTION_NAMES@[28]@ == "number_8"@);
    } else if i == 29 {
        reveal_strlit("number_9");
        assert(ACTION_NAMES@[29]@ == "number_9"@);
    }
}

proof fn lemma_action_ranks(i: int)
    requires
        0 <= i < 30,
    ensures
        action_rank(ACTION_NAMES@[i]@) == i,
        plain_name(ACTION_NAMES@[i]@),
{
    if i < 10 {
        lemma_action_ranks_0(i);
    } else if i < 20 {
        lemma_action_ranks_10(i);
    } else {
        lemma_action_ranks_20(i);
    }
}

proof fn lemma_action_name(i: int, from: int)
    requires
        0 <= from <= i < 30,
    ensures
        action_name_from(ACTION_NAMES@[i]@, from) == Some(i),
    decreases i - from,
{
    if from < i {
        lemma_action_ranks(from);
        lemma_action_ranks(i);
        lemma_action_name(i, from + 1);
    }
}

/// A plain name is in the form in which action names are compared.
pub proof fn lemma_plain_form(s: Seq<char>)
    requires
        plain_name(s),
    ensures
        action_form(s) == s,
{
    assert(plain_char(s[0]));
    assert(plain_char(s.last()));
    assert(text::trimmed(s) == s);
    assert forall|i: int| 0 <= i < s.len() implies (s[i] as u32) < 128 by {
        assert(plain_char(s[i]));
    }
    assert(vstd::utf8::is_ascii_chars(s));
    assert forall|i: int| 0 <= i < s.len() implies text::lower(s)[i] == s[i] by {
        assert(plain_char(s[i]));
    }
    assert(text::lower(s) =~= s);
    assert forall|i: int| 0 <= i < s.len() implies underscored(s)[i] == s[i] by {
        assert(plain_char(s[i]));
    }
    assert(underscored(s) =~= s);
}

/// The name of every action reads as that action: [`Action::parse`] undoes [`Action::as_str`].
pub proof fn law_action_names_round_trip(a: Action)
    requires
        action_index(a) is Some,
    ensures
        action_named(action_form(action_text(a))) == Some(a),
{
    let i = action_index(a)->0;
    lemma_action_ranks(i);
    lemma_plain_form(ACTION_NAMES@[i]@);
    lemma_action_name(i, 0);
    assert(action_at(i) == a);
}

/// A character that separates the words of an action name.
pub open spec fn separator(c: char) -> bool {
    c == '-' || c == ' ' || c == '_'
}

/// Whether two texts differ at most in which separators they use.
pub open spec fn same_but_separators(a: Seq<char>, b: Seq<char>) -> bool {
    a.len() == b.len() && forall|i: int|
        #![trigger a[i]]
        #![trigger b[i]]
        0 <= i < a.len() ==> a[i] == b[i] || (separator(a[i]) && separator(b[i]))
}

/// Dashes, spaces and underscores are as good as one another, in every text: two names that are the
/// same but for their separators, once white space around them is off and they are in lower case,
/// read as the same action.
pub proof fn law_action_parse_ignores_separators(s: Seq<char>, t: Seq<char>)
    requires
        same_but_separators(text::lower(text::trimmed(s)), text::lower(text::trimmed(t))),
    ensures
        action_named(action_form(s)) == action_named(action_form(t)),
{
    let a = text::lower(text::trimmed(s));
    let b = text::lower(text::trimmed(t));
    assert forall|i: int| 0 <= i < a.len() implies underscored(a)[i] == underscored(b)[i] by {
        assert(a[i] == b[i] || (separator(a[i]) && separator(b[i])));
    }
    assert(underscored(a) =~= underscored(b));
}

/// For names in ASCII it is enough that they are the same but for their separators as they are
/// written, with white space around them off.
pub proof fn law_ascii_actions_ignore_separators(s: Seq<char>, t: Seq<char>)
    requires
        vstd::utf8::is_ascii_chars(text::trimmed(s)),
        vstd::utf8::is_ascii_chars(text::trimmed(t)),
        same_but_separators(text::trimmed(s), text::trimmed(t)),
    ensures
        action_named(action_form(s)) == action_named(action_form(t)),
{
    let a = text::trimmed(s);
    let b = text::trimmed(t);
    assert forall|i: int| 0 <= i < a.len() implies text::lower(a)[i] == text::lower(b)[i] || (
    separator(text::lower(a)[i]) && separator(text::lower(b)[i])) by {
        assert(a[i] == b[i] || (separator(a[i]) && separator(b[i])));
    }
    law_action_parse_ignores_separators(s, t);
}

// ---------------------------------------------------------------------------
// Registry
// ---------------------------------------------------------------------------

/// A chain of strategies that stands in for the defaults of an action on devices of a vendor.
#[derive(Debug)]
struct VendorOverride {
    vendor: String,
    action: Action,
    chain: Vec<Strategy>,
}

/// The strategies of every action, with per-vendor overrides.
#[derive(Debug)]
pub struct Registry {
    overrides: Vec<VendorOverride>,
}

/// The form that a vendor key is kept in.
pub open spec fn vendor_form(vendor: Seq<char>) -> Seq<char> {
    text::lower(text::trimmed(vendor))
}

spec fn find_override(v: Seq<VendorOverride>, vendor: Seq<char>, action: Action) -> Option<
    Seq<StrategyV>,
>
    decreases v.len(),
{
    if v.len() == 0 {
        None
    } else if v.last().vendor@ == vendor && v.last().action == action {
        Some(strategy_views(v.last().chain@))
    } else {
        find_override(v.drop_last(), vendor, action)
    }
}

spec fn override_keys_unique(v: Seq<VendorOverride>) -> bool {
    forall|i: int, j: int|
        0 <= i < j < v.len() ==> !(#[trigger] v[i].vendor@ == #[trigger] v[j].vendor@ && v[i].action
            == v[j].action)
}

proof fn lemma_override_found(v: Seq<VendorOverride>, i: int)
    requires
        override_keys_unique(v),
        0 <= i < v.len(),
    ensures
        find_override(v, v[i].vendor@, v[i].action) == Some(strategy_views(v[i].chain@)),
    decreases v.len(),
{
    if i < v.len() - 1 {
        assert(v.drop_last()[i] == v[i]);
        lemma_override_found(v.drop_last(), i);
    }
}

proof fn lemma_override_missing(v: Seq<VendorOverride>, vendor: Seq<char>, action: Action)
    requires
        forall|i: int|
            0 <= i < v.len() ==> !((#[trigger] v[i]).vendor@ == vendor && v[i].action == action),
    ensures
        find_override(v, vendor, action) is None,
    decreases v.len(),
{
    if v.len() > 0 {
        assert(v[v.len() - 1] == v.last());
        assert forall|i: int| 0 <= i < v.drop_last().len() implies !((#[trigger] v.drop_last()[i]).vendor@
            == vendor && v.drop_last()[i].action == action) by {
            assert(v.drop_last()[i] == v[i]);
        }
        lemma_override_missing(v.drop_last(), vendor, action);
    }
}

proof fn lemma_override_some(v: Seq<VendorOverride>, vendor: Seq<char>, action: Action) -> (i: int)
    requires
        find_override(v, vendor, action) is Some,
    ensures
        0 <= i < v.len(),
        v[i].vendor@ == vendor,
        v[i].action == action,
    decreases v.len(),
{
    if v.last().vendor@ == vendor && v.last().action == action {
        v.len() - 1
    } else {
        let i = lemma_override_some(v.drop_last(), vendor, action);
        assert(v.drop_last()[i] == v[i]);
        i
    }
}

impl Registry {
    /// The override for a vendor key and an action.
    pub closed spec fn lookup(&self, vendor: Seq<char>, action: Action) -> Option<Seq<StrategyV>> {
        find_override(self.overrides@, vendor, action)
    }

    /// One override at most for a vendor and an action, none of them empty, none for no vendor.
    pub closed spec fn wf(&self) -> bool {
        &&& override_keys_unique(self.overrides@)
        &&& forall|i: int|
            0 <= i < self.overrides@.len() ==> (#[trigger] self.overrides@[i]).vendor@.len() > 0
                && self.overrides@[i].chain@.len() > 0
    }

    /// The chain of an action on devices of a vendor: the override for the vendor where there is
    /// one, else the defaults.
    pub open spec fn chain_for(&self, vendor: Seq<char>, action: Action) -> Seq<StrategyV> {
        match self.lookup(vendor_form(vendor), action) {
            Some(chain) => if vendor.len() > 0 {
                chain
            } else {
                default_chain_of(action)
            },
            None => default_chain_of(action),
        }
    }

    pub fn new() -> (r: Registry)
        ensures
            r.wf(),
            forall|v: Seq<char>, a: Action| (#[trigger] r.lookup(v, a)) is None,
    {
        Registry { overrides: Vec::new() }
    }

    fn position(&self, vendor: &str, action: Action) -> (r: Option<usize>)
        requires
            self.wf(),
        ensures
            match r {
                Some(i) => i < self.overrides@.len() && self.overrides@[i as int].vendor@ == vendor@
                    && self.overrides@[i as int].action == action && self.lookup(vendor@, action)
                    == Some(strategy_views(self.overrides@[i as int].chain@)),
                None => self.lookup(vendor@, action) is None && forall|j: int|
                    0 <= j < self.overrides@.len() ==> !((#[trigger] self.overrides@[j]).vendor@
                        == vendor@ && self.overrides@[j].action == action),
            },
    {
        let mut i: usize = 0;
        while i < self.overrides.len()
            invariant
                self.wf(),
                i <= self.overrides@.len(),
                forall|j: int|
                    0 <= j < i ==> !((#[trigger] self.overrides@[j]).vendor@ == vendor@
                        && self.overrides@[j].action == action),
            decreases self.overrides@.len() - i,
        {
            if text::str_eq(self.overrides[i].vendor.as_str(), vendor) && self.overrides[i].action
                == action {
                proof {
                    lemma_override_found(self.overrides@, i as int);
                }
                return Some(i);
            }
            i += 1;
        }
        proof {
            lemma_override_missing(self.overrides@, vendor@, action);
        }
        None
    }

    /// Sets the chain of an action for a vendor; an empty chain clears it, and a blank vendor
    /// changes nothing.
    pub fn set_vendor_override(&mut self, vendor: &str, action: Action, strategies: Vec<Strategy>)
        requires
            old(self).wf(),
        ensures
            final(self).wf(),
            forall|v: Seq<char>, a: Action| #[trigger]
                final(self).lookup(v, a) == (if vendor_form(vendor@).len() > 0 && v == vendor_form(
                    vendor@,
                ) && a == action {
                    if strategies@.len() == 0 {
                        None
                    } else {
                        Some(strategy_views(strategies@))
                    }
                } else {
                    old(self).lookup(v, a)
                }),
    {
        let key = text::to_lowercase(text::trim(vendor));
        if key.as_str().is_empty() {
            return;
        }
        let ghost before = self.overrides@;
        let pos = self.position(key.as_str(), action);
        let ghost gap = match pos {
            Some(i) => i as int,
            None => before.len() as int,
        };
        if let Some(i) = pos {
            self.overrides.remove(i);
        }
        let ghost rest = self.overrides@;
        proof {
            assert forall|j: int| 0 <= j < rest.len() implies rest[j] == before[if j < gap {
                j
            } else {
                j + 1
            }] by {}
            assert(override_keys_unique(rest)) by {
                assert forall|i: int, j: int| 0 <= i < j < rest.len() implies !(
                #[trigger] rest[i].vendor@ == #[trigger] rest[j].vendor@ && rest[i].action
                    == rest[j].action) by {
                    let a = if i < gap { i } else { i + 1 };
                    let b = if j < gap { j } else { j + 1 };
                    assert(before[a].vendor@ == rest[i].vendor@ && before[b].vendor@
                        == rest[j].vendor@);
                }
            }
            assert forall|j: int| 0 <= j < rest.len() implies !((#[trigger] rest[j]).vendor@ == key@
                && rest[j].action == action) by {
                let b = if j < gap { j } else { j + 1 };
                if gap < before.len() {
                    if b < gap {
                        assert(before[b].vendor@ == rest[j].vendor@ && before[gap].vendor@ == key@);
                    } else {
                        assert(before[gap].vendor@ == key@ && before[b].vendor@ == rest[j].vendor@);
                    }
                } else {
                    assert(before[b] == rest[j]);
                }
            }
            lemma_override_missing(rest, key@, action);
            assert forall|v: Seq<char>, a: Action| !(v == key@ && a == action) implies find_override(
                rest,
                v,
                a,
            ) == #[trigger] find_override(before, v, a) by {
                if find_override(before, v, a) is Some {
                    let k = lemma_override_some(before, v, a);
                    assert(k != gap);
                    let m = if k < gap { k } else { k - 1 };
                    assert(rest[m] == before[k]);
                    lemma_override_found(before, k);
                    lemma_override_found(rest, m);
                } else if find_override(rest, v, a) is Some {
                    let m = lemma_override_some(rest, v, a);
                    let k = if m < gap { m } else { m + 1 };
                    assert(rest[m] == before[k]);
                    lemma_override_found(before, k);
                }
            }
            assert forall|j: int| 0 <= j < rest.len() implies (#[trigger] rest[j]).vendor@.len() > 0
                && rest[j].chain@.len() > 0 by {
                assert(before[if j < gap { j } else { j + 1 }] == rest[j]);
            }
        }
        if strategies.len() > 0 {
            let ghost views = strategy_views(strategies@);
            self.overrides.push(VendorOverride { vendor: key, action, chain: strategies });
            proof {
                let now = self.overrides@;
                assert(now.drop_last() =~= rest);
                assert(override_keys_unique(now)) by {
                    assert forall|i: int, j: int| 0 <= i < j < now.len() implies !(
                    #[trigger] now[i].vendor@ == #[trigger] now[j].vendor@ && now[i].action
                        == now[j].action) by {
                        assert(now[i] == rest[i]);
                        if j < rest.len() {
                            assert(now[j] == rest[j]);
                            assert(!(rest[i].vendor@ == rest[j].vendor@ && rest[i].action
                                == rest[j].action));
                        }
                    }
                }
                assert forall|j: int| 0 <= j < now.len() implies (#[trigger] now[j]).vendor@.len()
                    > 0 && now[j].chain@.len() > 0 by {
                    if j < rest.len() {
                        assert(now[j] == rest[j]);
                    }
                }
                assert forall|v: Seq<char>, a: Action| #[trigger] self.lookup(v, a) == (if v == key@
                    && a == action {
                    Some(views)
                } else {
                    find_override(before, v, a)
                }) by {}
            }
        } else {
            assert forall|v: Seq<char>, a: Action| #[trigger] self.lookup(v, a) == (if v == key@ && a
                == action {
                None
            } else {
                find_override(before, v, a)
            }) by {
                assert(find_override(before, v, a) == find_override(before, v, a));
            }
        }
    }

    /// The chain of an action on devices of a vendor.
    pub fn strategies_for(&self, vendor: &str, action: Action) -> (r: Vec<Strategy>)
        requires
            self.wf(),
        ensures
            strategy_views(r@) == self.chain_for(vendor@, action),
    {
        if !vendor.is_empty() {
            let key = text::to_lowercase(text::trim(vendor));
            if let Some(i) = self.position(key.as_str(), action) {
                return copy_strategies(&self.overrides[i].chain);
            }
        }
        default_strategies(action)
    }

    /// The default chain of an action, as strategy names and the kinds of their steps.
    pub fn default_chain(&self, action: Action) -> (r: Vec<(String, Vec<StepKind>)>)
        requires
            self.wf(),
        ensures
            r@.len() == default_chain_of(action).len(),
            forall|i: int|
                0 <= i < r@.len() ==> (#[trigger] r@[i]).0@ == default_chain_of(action)[i].name
                    && r@[i].1@ == step_kinds(default_chain_of(action)[i].steps),
    {
        let chain = self.strategies_for("", action);
        proof {
            reveal_strlit("");
            assert(strategy_views(chain@) == default_chain_of(action));
        }
        let mut out: Vec<(String, Vec<StepKind>)> = Vec::new();
        let mut i: usize = 0;
        while i < chain.len()
            invariant
                i <= chain@.len(),
                strategy_views(chain@) == default_chain_of(action),
                out@.len() == i,
                forall|j: int|
                    0 <= j < i ==> (#[trigger] out@[j]).0@ == default_chain_of(action)[j].name
                        && out@[j].1@ == step_kinds(default_chain_of(action)[j].steps),
            decreases chain@.len() - i,
        {
            let ghost sv = default_chain_of(action)[i as int];
            assert(sv == chain@[i as int]@);
            let kinds = kinds_of(&chain[i].steps);
            out.push((chain[i].name.clone(), kinds));
            i += 1;
        }
        out
    }
}

impl Default for Registry {
    fn default() -> (r: Registry)
        ensures
            r.wf(),
            forall|v: Seq<char>, a: Action| (#[trigger] r.lookup(v, a)) is None,
    {
        Registry::new()
    }
}

/// The kinds of a list of steps.
pub open spec fn step_kinds(v: Seq<StepV>) -> Seq<StepKind> {
    v.map_values(|s: StepV| s.kind)
}

fn kinds_of(v: &Vec<Step>) -> (r: Vec<StepKind>)
    ensures
        r@ == step_kinds(step_views(v@)),
{
    let mut out: Vec<StepKind> = Vec::new();
    let mut i: usize = 0;
    while i < v.len()
        invariant
            i <= v@.len(),
            out@.len() == i,
            forall|j: int| 0 <= j < i ==> out@[j] == v@[j].kind,
        decreases v@.len() - i,
    {
        out.push(v[i].kind);
        i += 1;
    }
    assert(out@ =~= step_kinds(step_views(v@)));
    out
}

/// An override that was set for a vendor is what counts, however the vendor is spelled: case and
/// white space around it do not matter.
pub proof fn law_override_takes_precedence(
    reg: Registry,
    vendor: Seq<char>,
    spelled: Seq<char>,
    action: Action,
    chain: Seq<StrategyV>,
)
    requires
        vendor_form(vendor).len() > 0,
        vendor_form(spelled) == vendor_form(vendor),
        reg.lookup(vendor_form(vendor), action) == Some(chain),
    ensures
        reg.chain_for(spelled, action) == chain,
{
    if spelled.len() == 0 {
        assert(text::lower(spelled).len() == 0);
    }
}

/// Where no override is set, the defaults count again.
pub proof fn law_cleared_override_restores_defaults(
    reg: Registry,
    vendor: Seq<char>,
    action: Action,
)
    requires
        reg.lookup(vendor_form(vendor), action) is None,
    ensures
        reg.chain_for(vendor, action) == default_chain_of(action),
{
}

// ---------------------------------------------------------------------------
// Results
// ---------------------------------------------------------------------------

/// How a strategy went.
#[derive(Debug, Clone, Copy, PartialEq, Eq, Structural)]
pub enum StratStatus {
    /// The expected reply came; `ok` on the wire.
    Confirmed,
    AckedNoReply,
    FeatureAborted,
    NoAck,
    Error,
    Skipped,
}

/// The wire text of a status.
pub open spec fn status_text(s: StratStatus) -> Seq<char> {
    match s {
        StratStatus::Confirmed => "ok"@,
        StratStatus::AckedNoReply => "acked_no_reply"@,
        StratStatus::FeatureAborted => "feature_aborted"@,
        StratStatus::NoAck => "no_ack"@,
        StratStatus::Error => "error"@,
        StratStatus::Skipped => "skipped"@,
    }
}

impl StratStatus {
    /// The wire text.
    pub fn as_str(self) -> (r: &'static str)
        ensures
            r@ == status_text(self),
    {
        match self {
            StratStatus::Confirmed => "ok",
            StratStatus::AckedNoReply => "acked_no_reply",
            StratStatus::FeatureAborted => "feature_aborted",
            StratStatus::NoAck => "no_ack",
            StratStatus::Error => "error",
            StratStatus::Skipped => "skipped",
        }
    }
}

/// How one step went.
#[derive(Debug)]
pub struct StepResult {
    pub kind: String,
    pub target: i32,
    pub acked: bool,
    pub error: String,
}

/// What a [`StepResult`] holds.
pub struct StepResultV {
    pub kind: Seq<char>,
    pub target: int,
    pub acked: bool,
    pub error: Seq<char>,
}

impl View for StepResult {
    type V = StepResultV;

    open spec fn view(&self) -> StepResultV {
        StepResultV {
            kind: self.kind@,
            target: self.target as int,
            acked: self.acked,
            error: self.error@,
        }
    }
}

/// What a list of step results holds.
pub open spec fn step_result_views(v: Seq<StepResult>) -> Seq<StepResultV> {
    v.map_values(|s: StepResult| s@)
}

/// How a run of a strategy went.
#[derive(Debug)]
pub struct StratResult {
    pub strategy: String,
    pub status: StratStatus,
    pub acked: bool,
    pub reply_opcode: i32,
    pub reply_name: String,
    pub abort_opcode: i32,
    pub elapsed_ms: i64,
    pub error: String,
    pub steps: Vec<StepResult>,
}

/// What a [`StratResult`] holds.
pub struct StratResultV {
    pub strategy: Seq<char>,
    pub status: StratStatus,
    pub acked: bool,
    pub reply_opcode: int,
    pub reply_name: Seq<char>,
    pub abort_opcode: int,
    pub elapsed_ms: int,
    pub error: Seq<char>,
    pub steps: Seq<StepResultV>,
}

impl View for StratResult {
    type V = StratResultV;

    open spec fn view(&self) -> StratResultV {
        StratResultV {
            strategy: self.strategy@,
            status: self.status,
            acked: self.acked,
            reply_opcode: self.reply_opcode as int,
            reply_name: self.reply_name@,
            abort_opcode: self.abort_opcode as int,
            elapsed_ms: self.elapsed_ms as int,
            error: self.error@,
            steps: step_result_views(self.steps@),
        }
    }
}

/// The JSON object of a step result: a zero target and an empty error are left out.
pub open spec fn step_result_object(r: StepResultV) -> Map<Seq<char>, JsonV> {
    let m0 = json::no_fields().insert("kind"@, JsonV::Text(r.kind));
    let m1 = if r.target == 0 {
        m0
    } else {
        m0.insert("target"@, JsonV::Int(r.target))
    };
    let m2 = m1.insert("acked"@, JsonV::Bool(r.acked));
    if r.error.len() == 0 {
        m2
    } else {
        m2.insert("error"@, JsonV::Text(r.error))
    }
}

/// The JSON object of a strategy result: zero opcodes, empty texts and an empty step list are left
/// out.
pub open spec fn strat_result_object(r: StratResultV) -> Map<Seq<char>, JsonV> {
    let m0 = json::no_fields().insert("strategy"@, JsonV::Text(r.strategy)).insert(
        "status"@,
        JsonV::Text(status_text(r.status)),
    ).insert("acked"@, JsonV::Bool(r.acked));
    let m1 = if r.reply_opcode == 0 {
        m0
    } else {
        m0.insert("reply_opcode"@, JsonV::Int(r.reply_opcode))
    };
    let m2 = if r.reply_name.len() == 0 {
        m1
    } else {
        m1.insert("reply_name"@, JsonV::Text(r.reply_name))
    };
    let m3 = if r.abort_opcode == 0 {
        m2
    } else {
        m2.insert("abort_opcode"@, JsonV::Int(r.abort_opcode))
    };
    let m4 = m3.insert("elapsed_ms"@, JsonV::Int(r.elapsed_ms));
    let m5 = if r.error.len() == 0 {
        m4
    } else {
        m4.insert("error"@, JsonV::Text(r.error))
    };
    if r.steps.len() == 0 {
        m5
    } else {
        m5.insert(
            "steps"@,
            JsonV::Array(r.steps.map_values(|s: StepResultV| JsonV::Object(step_result_object(s)))),
        )
    }
}

impl StepResult {
    /// The JSON form of the result.
    pub fn to_json(&self) -> (r: serde_json::Value)
        ensures
            json::json(r) == JsonV::Object(step_result_object(self@)),
    {
        let mut m = json::new_object();
        json::insert(&mut m, "kind", json::text(self.kind.as_str()));
        if self.target != 0 {
            json::insert(&mut m, "target", json::integer(self.target as i64));
        }
        json::insert(&mut m, "acked", json::boolean(self.acked));
        if !self.error.as_str().is_empty() {
            json::insert(&mut m, "error", json::text(self.error.as_str()));
        }
        json::object_value(m)
    }
}

impl StratResult {
    /// The JSON form of the result.
    pub fn to_json(&self) -> (r: serde_json::Value)
        ensures
            json::json(r) == JsonV::Object(strat_result_object(self@)),
    {
        let mut m = json::new_object();
        json::insert(&mut m, "strategy", json::text(self.strategy.as_str()));
        json::insert(&mut m, "status", json::text(self.status.as_str()));
        json::insert(&mut m, "acked", json::boolean(self.acked));
        if self.reply_opcode != 0 {
            json::insert(&mut m, "reply_opcode", json::integer(self.reply_opcode as i64));
        }
        if !self.reply_name.as_str().is_empty() {
            json::insert(&mut m, "reply_name", json::text(self.reply_name.as_str()));
        }
        if self.abort_opcode != 0 {
            json::insert(&mut m, "abort_opcode", json::integer(self.abort_opcode as i64));
        }
        json::insert(&mut m, "elapsed_ms", json::integer(self.elapsed_ms));
        if !self.error.as_str().is_empty() {
            json::insert(&mut m, "error", json::text(self.error.as_str()));
        }
        if self.steps.len() > 0 {
            let mut list: Vec<serde_json::Value> = Vec::new();
            let mut i: usize = 0;
            let ghost all = step_result_views(self.steps@).map_values(
                |s: StepResultV| JsonV::Object(step_result_object(s)),
            );
            while i < self.steps.len()
                invariant
                    i <= self.steps@.len(),
                    all == step_result_views(self.steps@).map_values(
                        |s: StepResultV| JsonV::Object(step_result_object(s)),
                    ),
                    json::jsons(list@) == all.take(i as int),
                decreases self.steps@.len() - i,
            {
                let ghost before = list@;
                list.push(self.steps[i].to_json());
                i += 1;
                assert(json::jsons(list@) =~= json::jsons(before).push(all[i - 1]));
                assert(json::jsons(list@) =~= all.take(i as int));
            }
            assert(all.take(i as int) =~= all);
            json::insert(&mut m, "steps", json::array(list));
        }
        json::object_value(m)
    }
}

/// What a caller can choose about a run.
#[derive(Debug)]
pub struct RunOptions {
    pub vendor: String,
    pub target: Option<LogicalAddress>,
    pub all_strategies: bool,
    pub observe_override_ms: i64,
}

impl Default for RunOptions {
    fn default() -> (r: RunOptions)
        ensures
            r.vendor@ == Seq::<char>::empty(),
            r.target is None,
            !r.all_strategies,
            r.observe_override_ms == 0,
    {
        RunOptions {
            vendor: String::new(),
            target: None,
            all_strategies: false,
            observe_override_ms: 0,
        }
    }
}

// ---------------------------------------------------------------------------
// Timing and replies
// ---------------------------------------------------------------------------

/// The longest observation of a strategy, in milliseconds.
pub const MAX_OBSERVE_MS: i64 = 5000;

/// The longest key hold, in milliseconds.
pub const MAX_HOLD_MS: i64 = 2000;

/// The longest delay between steps, in milliseconds.
pub const MAX_DELAY_MS: i64 = 2000;

/// `v` cut to `0..=max`.
pub open spec fn clamped(v: int, max: int) -> int {
    if v < 0 {
        0
    } else if v > max {
        max
    } else {
        v
    }
}

/// Cuts a client-tunable time to `0..=max`.
pub fn clamp_ms(v: i64, max: i64) -> (r: i64)
    requires
        0 <= max,
    ensures
        r == clamped(v as int, max as int),
        0 <= r <= max,
{
    if v < 0 {
        0
    } else if v > max {
        max
    } else {
        v
    }
}

/// The opcode that answers a step.
pub open spec fn expected_reply(s: StepV) -> Option<u8> {
    match s.kind {
        StepKind::SendUserControl => if s.key == Keycode::VOLUME_UP || s.key == Keycode::VOLUME_DOWN
            || s.key == Keycode::MUTE {
            Some(Opcode::REPORT_AUDIO_STATUS)
        } else {
            None
        },
        StepKind::LibcecVolumeUp | StepKind::LibcecVolumeDown | StepKind::LibcecMute => Some(
            Opcode::REPORT_AUDIO_STATUS,
        ),
        StepKind::LibcecPowerOn | StepKind::LibcecStandby => Some(Opcode::REPORT_POWER_STATUS),
        StepKind::Transmit => if s.opcode == Opcode::GIVE_DEVICE_POWER_STATUS {
            Some(Opcode::REPORT_POWER_STATUS)
        } else if s.opcode == Opcode::GIVE_AUDIO_STATUS {
            Some(Opcode::REPORT_AUDIO_STATUS)
        } else if s.opcode == Opcode::GIVE_DEVICE_VENDOR_ID {
            Some(Opcode::DEVICE_VENDOR_ID)
        } else if s.opcode == Opcode::GIVE_OSD_NAME {
            Some(Opcode::SET_OSD_NAME)
        } else if s.opcode == Opcode::GIVE_PHYSICAL_ADDRESS {
            Some(Opcode::REPORT_PHYSICAL_ADDRESS)
        } else if s.opcode == Opcode::GET_CEC_VERSION {
            Some(Opcode::CEC_VERSION)
        } else {
            None
        },
        _ => None,
    }
}

/// The opcode that answers a step, if one is expected.
pub fn expected_reply_opcode(s: &Step) -> (r: Option<Opcode>)
    ensures
        match r {
            Some(op) => expected_reply(s@) == Some(op.0),
            None => expected_reply(s@) is None,
        },
{
    match s.kind {
        StepKind::SendUserControl => if s.key.0 == Keycode::VOLUME_UP || s.key.0
            == Keycode::VOLUME_DOWN || s.key.0 == Keycode::MUTE {
            Some(Opcode(Opcode::REPORT_AUDIO_STATUS))
        } else {
            None
        },
        StepKind::LibcecVolumeUp | StepKind::LibcecVolumeDown | StepKind::LibcecMute => Some(
            Opcode(Opcode::REPORT_AUDIO_STATUS),
        ),
        StepKind::LibcecPowerOn | StepKind::LibcecStandby => Some(
            Opcode(Opcode::REPORT_POWER_STATUS),
        ),
        StepKind::Transmit => if s.opcode.0 == Opcode::GIVE_DEVICE_POWER_STATUS {
            Some(Opcode(Opcode::REPORT_POWER_STATUS))
        } else if s.opcode.0 == Opcode::GIVE_AUDIO_STATUS {
            Some(Opcode(Opcode::REPORT_AUDIO_STATUS))
        } else if s.opcode.0 == Opcode::GIVE_DEVICE_VENDOR_ID {
            Some(Opcode(Opcode::DEVICE_VENDOR_ID))
        } else if s.opcode.0 == Opcode::GIVE_OSD_NAME {
            Some(Opcode(Opcode::SET_OSD_NAME))
        } else if s.opcode.0 == Opcode::GIVE_PHYSICAL_ADDRESS {
            Some(Opcode(Opcode::REPORT_PHYSICAL_ADDRESS))
        } else if s.opcode.0 == Opcode::GET_CEC_VERSION {
            Some(Opcode(Opcode::CEC_VERSION))
        } else {
            None
        },
        _ => None,
    }
}

/// `s` without a leading `0x` or `0X`.
pub open spec fn without_0x(s: Seq<char>) -> Seq<char> {
    if text::starts_with(s, "0x"@) {
        s.skip("0x"@.len() as int)
    } else if text::starts_with(s, "0X"@) {
        s.skip("0X"@.len() as int)
    } else {
        s
    }
}

/// The low byte of the hexadecimal number that a text writes down; 0 for anything else.
pub open spec fn hex_byte_value(s: Seq<char>) -> int {
    match text::parse_hex_int(without_0x(s), i32::MIN as int, i32::MAX as int) {
        Some(v) => v % 256,
        None => 0,
    }
}

/// Reads a byte in hexadecimal, with or without prefix; anything else is 0.
pub fn parse_hex_byte(s: &str) -> (r: i32)
    ensures
        r == hex_byte_value(s@),
        0 <= r < 256,
{
    let t = match text::strip_prefix(s, "0x") {
        Some(t) => t,
        None => match text::strip_prefix(s, "0X") {
            Some(t) => t,
            None => s,
        },
    };
    match text::parse_hex_i64(t, i32::MIN as i64, i32::MAX as i64) {
        Some(v) => low_byte(v as i32),
        None => 0,
    }
}

/// The low byte of a number.
fn low_byte(v: i32) -> (r: i32)
    ensures
        r == v as int % 256,
        0 <= r < 256,
{
    if v >= 0 {
        v % 256
    } else {
        let m: i64 = (-(v as i64)) % 256;
        if m == 0 {
            0
        } else {
            (256 - m) as i32
        }
    }
}

/// What the frames seen after a run say of it.
pub enum Verdict {
    /// A device refused: the opcode it refused, and the opcode of the refusal.
    Aborted { abort_opcode: int, reply_opcode: int },
    /// The expected answer came.
    Replied { reply_opcode: int, reply_name: Seq<char> },
    /// Neither.
    Silent,
}

/// The verdict of the frames `i..`: the first frame from another device that is a refusal with
/// parameters or the expected answer decides.
pub open spec fn verdict_from(frames: Seq<FrameV>, expected: Option<u8>, own_la: int, i: int) -> Verdict
    decreases frames.len() - i,
{
    if i < 0 || i >= frames.len() {
        Verdict::Silent
    } else {
        let f = frames[i];
        let op = hex_byte_value(f.opcode);
        if f.initiator == own_la {
            verdict_from(frames, expected, own_la, i + 1)
        } else if op == Opcode::FEATURE_ABORT && f.params_hex.len() > 0 {
            Verdict::Aborted { abort_opcode: hex_byte_value(f.params_hex[0]), reply_opcode: op }
        } else if expected is Some && op == expected->0 {
            Verdict::Replied { reply_opcode: op, reply_name: opcode_text(expected->0) }
        } else {
            verdict_from(frames, expected, own_la, i + 1)
        }
    }
}

/// A result with the verdict written into it. Without a verdict only the status changes.
pub open spec fn with_verdict(res: StratResultV, v: Verdict) -> StratResultV {
    match v {
        Verdict::Aborted { abort_opcode, reply_opcode } => StratResultV {
            status: StratStatus::FeatureAborted,
            abort_opcode,
            reply_opcode,
            reply_name: "FEATURE_ABORT"@,
            ..res
        },
        Verdict::Replied { reply_opcode, reply_name } => StratResultV {
            status: StratStatus::Confirmed,
            reply_opcode,
            reply_name,
            ..res
        },
        Verdict::Silent => StratResultV {
            status: if res.acked {
                StratStatus::AckedNoReply
            } else {
                StratStatus::NoAck
            },
            ..res
        },
    }
}

/// Writes into a result what the frames seen after the run say of it. Frames of this adapter do
/// not count.
pub fn classify(
    res: &mut StratResult,
    new_frames: &Vec<BusFrameEntry>,
    expected: Option<Opcode>,
    own_la: i32,
)
    ensures
        final(res)@ == with_verdict(
            old(res)@,
            verdict_from(
                frame_views(new_frames@),
                match expected {
                    Some(op) => Some(op.0),
                    None => None,
                },
                own_la as int,
                0,
            ),
        ),
{
    let ghost fv = frame_views(new_frames@);
    let ghost exp = match expected {
        Some(op) => Some(op.0),
        None => None,
    };
    let mut i: usize = 0;
    while i < new_frames.len()
        invariant
            i <= new_frames@.len(),
            fv == frame_views(new_frames@),
            exp == (match expected {
                Some(op) => Some(op.0),
                None => None,
            }),
            *res == *old(res),
            verdict_from(fv, exp, own_la as int, 0) == verdict_from(
                fv,
                exp,
                own_la as int,
                i as int,
            ),
        decreases new_frames@.len() - i,
    {
        let f = &new_frames[i];
        assert(fv[i as int] == f@);
        if f.initiator != own_la {
            let op: i32 = parse_hex_byte(f.opcode.as_str());
            if op == Opcode::FEATURE_ABORT as i32 && f.params_hex.len() > 0 {
                assert(f@.params_hex[0] == f.params_hex@[0]@);
                res.status = StratStatus::FeatureAborted;
                res.abort_opcode = parse_hex_byte(f.params_hex[0].as_str());
                res.reply_opcode = op;
                res.reply_name = "FEATURE_ABORT".to_owned();
                return;
            }
            if let Some(e) = expected {
                if op == e.0 as i32 {
                    res.status = StratStatus::Confirmed;
                    res.reply_opcode = op;
                    res.reply_name = opcode_name(e);
                    return;
                }
            }
        }
        i += 1;
    }
    if !res.acked {
        res.status = StratStatus::NoAck;
        return;
    }
    res.status = StratStatus::AckedNoReply;
}

// ---------------------------------------------------------------------------
// What frames say of a run
// ---------------------------------------------------------------------------

/// Whether a frame comes from another device and settles a run: it refuses something, or it is the
/// answer that was expected.
pub open spec fn settles(f: FrameV, expected: Option<u8>, own_la: int) -> bool {
    f.initiator != own_la && ((hex_byte_value(f.opcode) == 0 && f.params_hex.len() > 0) || expected
        == Some(hex_byte_value(f.opcode) as u8))
}

proof fn lemma_opcode_is_a_byte(f: FrameV)
    ensures
        0 <= hex_byte_value(f.opcode) <= 255,
        hex_byte_value(f.opcode) as u8 == hex_byte_value(f.opcode),
{
}

proof fn lemma_verdict_skips(frames: Seq<FrameV>, expected: Option<u8>, own_la: int, i: int, k: int)
    requires
        0 <= i <= k <= frames.len(),
        forall|j: int| i <= j < k ==> !settles(#[trigger] frames[j], expected, own_la),
    ensures
        verdict_from(frames, expected, own_la, i) == verdict_from(frames, expected, own_la, k),
    decreases k - i,
{
    if i < k {
        assert(!settles(frames[i], expected, own_la));
        lemma_opcode_is_a_byte(frames[i]);
        lemma_verdict_skips(frames, expected, own_la, i + 1, k);
    }
}

/// The first frame of another device that settles a run decides it, whatever comes before and after
/// it: a refusal makes the run refused, with the opcode that was refused, and the expected answer
/// confirms it.
pub proof fn law_first_settling_frame_decides(
    res: StratResultV,
    frames: Seq<FrameV>,
    expected: Option<u8>,
    own_la: int,
    k: int,
)
    requires
        0 <= k < frames.len(),
        settles(frames[k], expected, own_la),
        forall|j: int| 0 <= j < k ==> !settles(#[trigger] frames[j], expected, own_la),
    ensures
        ({
            let out = with_verdict(res, verdict_from(frames, expected, own_la, 0));
            let op = hex_byte_value(frames[k].opcode);
            &&& out.strategy == res.strategy
            &&& out.acked == res.acked
            &&& out.reply_opcode == op
            &&& if op == 0 && frames[k].params_hex.len() > 0 {
                out.status == StratStatus::FeatureAborted && out.abort_opcode == hex_byte_value(
                    frames[k].params_hex[0],
                ) && out.reply_name == "FEATURE_ABORT"@
            } else {
                out.status == StratStatus::Confirmed && expected == Some(op as u8)
                    && out.reply_name == opcode_text(op as u8) && out.abort_opcode
                    == res.abort_opcode
            }
        }),
{
    lemma_opcode_is_a_byte(frames[k]);
    lemma_verdict_skips(frames, expected, own_la, 0, k);
}

/// A run counts as unanswered only where no frame of another device settles it; what is known of
/// it then is whether it was acknowledged, and nothing is made up for a reply.
pub proof fn law_only_silence_is_unanswered(
    res: StratResultV,
    frames: Seq<FrameV>,
    expected: Option<u8>,
    own_la: int,
)
    ensures
        ({
            let out = with_verdict(res, verdict_from(frames, expected, own_la, 0));
            let silent = forall|j: int|
                0 <= j < frames.len() ==> !settles(#[trigger] frames[j], expected, own_la);
            &&& silent == (out.status == StratStatus::AckedNoReply || out.status
                == StratStatus::NoAck)
            &&& silent ==> (out.status == StratStatus::AckedNoReply) == res.acked
            &&& silent ==> out.reply_opcode == res.reply_opcode && out.reply_name == res.reply_name
                && out.abort_opcode == res.abort_opcode
            &&& !silent ==> out.status == StratStatus::Confirmed || out.status
                == StratStatus::FeatureAborted
        }),
{
    let silent = forall|j: int|
        0 <= j < frames.len() ==> !settles(#[trigger] frames[j], expected, own_la);
    if silent {
        lemma_verdict_skips(frames, expected, own_la, 0, frames.len() as int);
    } else {
        let k = lemma_first_settling(frames, expected, own_la, 0);
        law_first_settling_frame_decides(res, frames, expected, own_la, k);
    }
}

proof fn lemma_first_settling(
    frames: Seq<FrameV>,
    expected: Option<u8>,
    own_la: int,
    i: int,
) -> (k: int)
    requires
        0 <= i,
        exists|j: int| i <= j < frames.len() && settles(#[trigger] frames[j], expected, own_la),
    ensures
        i <= k < frames.len(),
        settles(frames[k], expected, own_la),
        forall|j: int| i <= j < k ==> !settles(#[trigger] frames[j], expected, own_la),
    decreases frames.len() - i,
{
    if settles(frames[i], expected, own_la) {
        i
    } else {
        let j = choose|j: int|
            i <= j < frames.len() && settles(#[trigger] frames[j], expected, own_la);
        assert(j != i);
        lemma_first_settling(frames, expected, own_la, i + 1)
    }
}

/// A frame that settles nothing changes nothing, wherever it comes in: what other devices say among
/// themselves, and what this adapter sends, does not count.
pub proof fn law_unrelated_frames_do_not_count(
    res: StratResultV,
    before: Seq<FrameV>,
    f: FrameV,
    after: Seq<FrameV>,
    expected: Option<u8>,
    own_la: int,
)
    requires
        f.initiator == own_la || !settles(f, expected, own_la),
    ensures
        with_verdict(res, verdict_from(before.push(f) + after, expected, own_la, 0))
            == with_verdict(res, verdict_from(before + after, expected, own_la, 0)),
{
    let with = before.push(f) + after;
    let without = before + after;
    let n = before.len() as int;
    assert forall|j: int| 0 <= j < with.len() implies with[j] == (if j < n {
        without[j]
    } else if j == n {
        f
    } else {
        without[j - 1]
    }) by {}
    if exists|j: int| 0 <= j < without.len() && settles(#[trigger] without[j], expected, own_la) {
        let k = lemma_first_settling(without, expected, own_la, 0);
        let m = if k < n {
            k
        } else {
            k + 1
        };
        assert(with[m] == without[k]);
        assert forall|j: int| 0 <= j < m implies !settles(#[trigger] with[j], expected, own_la) by {
            if j < n {
                assert(with[j] == without[j]);
            } else if j > n {
                assert(with[j] == without[j - 1]);
            }
        }
        lemma_verdict_skips(without, expected, own_la, 0, k);
        lemma_verdict_skips(with, expected, own_la, 0, m);
        lemma_opcode_is_a_byte(with[m]);
    } else {
        assert forall|j: int| 0 <= j < with.len() implies !settles(
            #[trigger] with[j],
            expected,
            own_la,
        ) by {
            if j < n {
                assert(with[j] == without[j]);
            } else if j > n {
                assert(with[j] == without[j - 1]);
            }
        }
        lemma_verdict_skips(without, expected, own_la, 0, without.len() as int);
        lemma_verdict_skips(with, expected, own_la, 0, with.len() as int);
    }
}

/// The place of an action name in the table of names.
pub proof fn lemma_action_place(name: Seq<char>) -> (i: int)
    requires
        action_named(name) is Some,
    ensures
        0 <= i < 30,
        ACTION_NAMES@[i]@ == name,
        action_named(name) == Some(action_at(i)),
{
    lemma_action_name_in_range(name, 0);
    action_name_from(name, 0)->0
}

proof fn lemma_action_name_in_range(name: Seq<char>, from: int)
    requires
        0 <= from <= ACTION_NAMES@.len(),
    ensures
        action_name_from(name, from) matches Some(i) ==> from <= i < ACTION_NAMES@.len()
            && ACTION_NAMES@[i]@ == name,
    decreases ACTION_NAMES@.len() - from,
{
    if from < ACTION_NAMES@.len() && ACTION_NAMES@[from]@ != name {
        lemma_action_name_in_range(name, from + 1);
    }
}

// ---------------------------------------------------------------------------
// Laws of the default strategies, times and replies
// ---------------------------------------------------------------------------

/// The volume goes to the audio system first, and to the display only where that did not work; what
/// libcec itself would do comes last. Raising, lowering and muting press three different keys.
pub proof fn law_volume_goes_to_the_audio_system_first(a: Action, b: Action)
    requires
        a == Action::VolumeUp || a == Action::VolumeDown || a == Action::Mute,
        b == Action::VolumeUp || b == Action::VolumeDown || b == Action::Mute,
    ensures
        ({
            let chain = default_chain_of(a);
            &&& chain.len() >= 3
            &&& chain[0].steps.len() == 1 && chain[0].steps[0].kind == StepKind::SendUserControl
                && chain[0].steps[0].target == 5
            &&& chain[1].steps.len() == 1 && chain[1].steps[0].kind == StepKind::SendUserControl
                && chain[1].steps[0].target == 0
            &&& chain[0].steps[0].key == chain[1].steps[0].key
            &&& chain[0].steps[0].hold_ms > 0
            &&& (a == b) == (chain[0].steps[0].key == default_chain_of(b)[0].steps[0].key)
            &&& (a == b) == (chain.last().steps[0].kind == default_chain_of(b).last().steps[0].kind)
            &&& chain.last().steps[0].kind == (match a {
                Action::VolumeUp => StepKind::LibcecVolumeUp,
                Action::VolumeDown => StepKind::LibcecVolumeDown,
                _ => StepKind::LibcecMute,
            })
        }),
{
}

/// Navigation, playback, number and power actions go to the device that was chosen: their steps name
/// no device of their own. Only the tuner is tried before it when a channel is changed.
pub proof fn law_other_actions_go_to_the_chosen_device(a: Action, i: int, j: int)
    requires
        a != Action::VolumeUp && a != Action::VolumeDown && a != Action::Mute,
        0 <= i < default_chain_of(a).len(),
        0 <= j < default_chain_of(a)[i].steps.len(),
    ensures
        ({
            let st = default_chain_of(a)[i].steps[j];
            if (a == Action::ChannelUp || a == Action::ChannelDown) && i == 0 {
                st.target == 3
            } else {
                st.target == LogicalAddress::UNKNOWN
            }
        }),
        st_presses_or_powers(default_chain_of(a)[i].steps[j], a, i),
{
}

/// A step presses a key and waits for it, except that power is first tried the way of libcec.
pub open spec fn st_presses_or_powers(st: StepV, a: Action, i: int) -> bool {
    if a == Action::Power && i == 0 {
        st.kind == StepKind::LibcecPowerOn
    } else {
        st.kind == StepKind::SendUserControl && st.wait
    }
}

/// A number is pressed with the key of its digit.
pub proof fn law_numbers_press_their_digit(n: u8, m: u8)
    requires
        n <= 9,
        m <= 9,
    ensures
        default_chain_of(Action::Number(n)).len() == 1,
        default_chain_of(Action::Number(n))[0].steps.len() == 1,
        default_chain_of(Action::Number(n))[0].steps[0].key == 0x20 + n,
        n < m ==> default_chain_of(Action::Number(n))[0].steps[0].key < default_chain_of(
            Action::Number(m),
        )[0].steps[0].key,
{
}

/// A time that a client asks for is kept where it is in bounds, and is never out of them; a longer
/// wish never gives a shorter time.
pub proof fn law_times_are_cut_to_bounds(v: int, w: int, max: int)
    requires
        0 <= max,
    ensures
        0 <= clamped(v, max) <= max,
        0 <= v <= max ==> clamped(v, max) == v,
        v <= w ==> clamped(v, max) <= clamped(w, max),
{
}

/// A request is answered by the report that belongs to it, and by nothing else: power status, audio
/// status, vendor, OSD name, physical address and version. No other frame expects an answer.
pub proof fn law_requests_are_answered_by_their_reports(s: StepV)
    requires
        s.kind == StepKind::Transmit,
    ensures
        s.opcode == 0x8f ==> expected_reply(s) == Some(0x90u8),
        s.opcode == 0x71 ==> expected_reply(s) == Some(0x7au8),
        s.opcode == 0x8c ==> expected_reply(s) == Some(0x87u8),
        s.opcode == 0x46 ==> expected_reply(s) == Some(0x47u8),
        s.opcode == 0x83 ==> expected_reply(s) == Some(0x84u8),
        s.opcode == 0x9f ==> expected_reply(s) == Some(0x9eu8),
        expected_reply(s) is Some ==> s.opcode == 0x8f || s.opcode == 0x71 || s.opcode == 0x8c
            || s.opcode == 0x46 || s.opcode == 0x83 || s.opcode == 0x9f,
{
}

/// What changes the volume is answered by an audio status and what changes the power by a power
/// status, whether by a key or by libcec. Waiting is answered by nothing.
pub proof fn law_commands_are_answered_by_a_status(s: StepV)
    ensures
        s.kind == StepKind::SendUserControl ==> expected_reply(s) == (if s.key == 0x41 || s.key
            == 0x42 || s.key == 0x43 {
            Some(0x7au8)
        } else {
            None
        }),
        s.kind == StepKind::LibcecVolumeUp || s.kind == StepKind::LibcecVolumeDown || s.kind
            == StepKind::LibcecMute ==> expected_reply(s) == Some(0x7au8),
        s.kind == StepKind::LibcecPowerOn || s.kind == StepKind::LibcecStandby ==> expected_reply(s)
            == Some(0x90u8),
        s.kind == StepKind::Wait || s.kind == StepKind::EnableSam ==> expected_reply(s) is None,
{
}

/// A byte in hexadecimal reads back as the byte, with or without prefix, in either case.
pub proof fn law_hexadecimal_bytes_read_back(b: u8, upper: bool)
    ensures
        hex_byte_value(text::hex(b as nat, 2, upper)) == b,
        hex_byte_value("0x"@ + text::hex(b as nat, 2, upper)) == b,
        hex_byte_value("0X"@ + text::hex(b as nat, 2, upper)) == b,
{
    let h = text::hex(b as nat, 2, upper);
    text::lemma_hex_round_trip(b as nat, 2, upper);
    reveal_strlit("0x");
    reveal_strlit("0X");
    let hi = (b / 16) as int;
    let lo = (b % 16) as int;
    assert(h =~= seq![text::hex_char(hi, upper), text::hex_char(lo, upper)]) by {
        reveal_with_fuel(text::hex, 3);
        assert((b as nat) / 16 < 16);
    }
    assert(h[1] != 'x' && h[1] != 'X');
    assert(!text::starts_with(h, "0x"@)) by {
        if text::starts_with(h, "0x"@) {
            assert(h.take(2)[1] == 'x');
        }
    }
    assert(!text::starts_with(h, "0X"@)) by {
        if text::starts_with(h, "0X"@) {
            assert(h.take(2)[1] == 'X');
        }
    }
    let p = "0x"@ + h;
    let q = "0X"@ + h;
    assert(p.take(2) =~= "0x"@);
    assert(p.skip(2) =~= h);
    assert(q.take(2) =~= "0X"@);
    assert(q.skip(2) =~= h);
    assert(!text::starts_with(q, "0x"@)) by {
        if text::starts_with(q, "0x"@) {
            assert(q.take(2)[1] == 'x');
        }
    }
}

/// Each status has a name of its own, and only a confirmed run is `ok`.
pub proof fn law_statuses_are_told_apart(a: StratStatus, b: StratStatus)
    ensures
        status_text(a) == status_text(b) ==> a == b,
        status_text(a) == "ok"@ <==> a == StratStatus::Confirmed,
        status_text(a) == "error"@ <==> a == StratStatus::Error,
        status_text(a) == "skipped"@ <==> a == StratStatus::Skipped,
        status_text(a) == "no_ack"@ <==> a == StratStatus::NoAck,
        status_text(a) == "feature_aborted"@ <==> a == StratStatus::FeatureAborted,
        status_text(a) == "acked_no_reply"@ <==> a == StratStatus::AckedNoReply,
{
    reveal_strlit("ok");
    reveal_strlit("acked_no_reply");
    reveal_strlit("feature_aborted");
    reveal_strlit("no_ack");
    reveal_strlit("error");
    reveal_strlit("skipped");
    assert("ok"@.len() == 2);
    assert("acked_no_reply"@.len() == 14);
    assert("feature_aborted"@.len() == 15);
    assert("no_ack"@.len() == 6);
    assert("error"@.len() == 5);
    assert("skipped"@.len() == 7);
}

/// The report of a step tells whether it was acknowledged, and its target and its error where
/// there are any.
pub proof fn law_step_reports_read_back(r: StepResultV)
    requires
        i64::MIN <= r.target <= i64::MAX,
    ensures
        ({
            let o = JsonV::Object(step_result_object(r));
            &&& json::text_field(o, "kind"@) == Some(r.kind)
            &&& json::bool_field(o, "acked"@) == Some(r.acked)
            &&& json::int_field(o, "target"@) == (if r.target == 0 {
                None
            } else {
                Some(r.target)
            })
            &&& json::text_field(o, "error"@) == (if r.error.len() == 0 {
                None
            } else {
                Some(r.error)
            })
        }),
{
    reveal_strlit("kind");
    reveal_strlit("acked");
    reveal_strlit("target");
    reveal_strlit("error");
    assert("kind"@.len() == 4);
    assert("target"@.len() == 6);
    assert("acked"@[0] != "error"@[0]);
}

/// The report of a run tells its strategy, its status and its time, and each thing that it found
/// out exactly where it did.
pub proof fn law_run_reports_read_back(r: StratResultV, i: int)
    requires
        i64::MIN <= r.reply_opcode <= i64::MAX,
        i64::MIN <= r.abort_opcode <= i64::MAX,
        i64::MIN <= r.elapsed_ms <= i64::MAX,
    ensures
        ({
            let o = JsonV::Object(strat_result_object(r));
            &&& json::text_field(o, "strategy"@) == Some(r.strategy)
            &&& json::text_field(o, "status"@) == Some(status_text(r.status))
            &&& json::bool_field(o, "acked"@) == Some(r.acked)
            &&& json::int_field(o, "elapsed_ms"@) == Some(r.elapsed_ms)
            &&& json::int_field(o, "reply_opcode"@) == (if r.reply_opcode == 0 {
                None
            } else {
                Some(r.reply_opcode)
            })
            &&& json::text_field(o, "reply_name"@) == (if r.reply_name.len() == 0 {
                None
            } else {
                Some(r.reply_name)
            })
            &&& json::int_field(o, "abort_opcode"@) == (if r.abort_opcode == 0 {
                None
            } else {
                Some(r.abort_opcode)
            })
            &&& json::text_field(o, "error"@) == (if r.error.len() == 0 {
                None
            } else {
                Some(r.error)
            })
            &&& r.steps.len() == 0 ==> json::field(o, "steps"@) is None
            &&& 0 <= i < r.steps.len() ==> (json::field(o, "steps"@) matches Some(JsonV::Array(v))
                && v.len() == r.steps.len() && v[i] == JsonV::Object(
                step_result_object(r.steps[i]),
            ))
        }),
{
    reveal_strlit("strategy");
    reveal_strlit("status");
    reveal_strlit("acked");
    reveal_strlit("elapsed_ms");
    reveal_strlit("reply_opcode");
    reveal_strlit("reply_name");
    reveal_strlit("abort_opcode");
    reveal_strlit("error");
    reveal_strlit("steps");
    assert("strategy"@.len() == 8);
    assert("status"@.len() == 6);
    assert("acked"@.len() == 5);
    assert("error"@.len() == 5);
    assert("steps"@.len() == 5);
    assert("acked"@[0] == 'a');
    assert("error"@[0] == 'e');
    assert("steps"@[0] == 's');
    assert("elapsed_ms"@.len() == 10);
    assert("reply_name"@.len() == 10);
    assert("elapsed_ms"@[0] != "reply_name"@[0]);
    assert("reply_opcode"@.len() == 12);
    assert("abort_opcode"@.len() == 12);
    assert("reply_opcode"@[0] != "abort_opcode"@[0]);
}

/// A default strategy is one step, without operands and without a pause, and leaves the time to
/// watch the bus at its default. Keys of playback are pressed without being held, and all others
/// are held for some time.
pub proof fn law_default_strategies_are_single_steps(a: Action, i: int)
    requires
        0 <= i < default_chain_of(a).len(),
    ensures
        ({
            let s = default_chain_of(a)[i];
            &&& s.observe_ms == 0
            &&& s.steps.len() == 1
            &&& s.steps[0].params.len() == 0
            &&& s.steps[0].delay_ms == 0
            &&& s.steps[0].kind == StepKind::SendUserControl ==> (s.steps[0].hold_ms == 0 <==> a
                == Action::Play || a == Action::Pause || a == Action::Stop || a
                == Action::FastForward || a == Action::Rewind || a == Action::Record)
            &&& s.steps[0].kind != StepKind::SendUserControl ==> s.steps[0].hold_ms == 0
                && !s.steps[0].wait && s.steps[0].target == LogicalAddress::UNKNOWN
        }),
{
}

/// There is no key for a number of more than one digit.
pub proof fn law_only_digits_are_pressed(n: u8)
    ensures
        default_chain_of(Action::Number(n)).len() == 0 <==> n > 9,
{
}

} // verus!
