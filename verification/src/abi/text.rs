//! The lines that tell of callback requests and notifications of the
//! engine loop, with names shown by the texts the game's name pool gives
//! them.

use vstd::prelude::*;

use crate::abi::callback::{Callback, FireCallback};
use crate::abi::lifecycle::{system_text, ReplacementNotification, Session};
use crate::abi::types::{EventActionType, Preset};
use crate::engine::queue::LoopEvent;
use crate::names::CName;

verus! {

/// The texts of names, as the game's name pool gives them; a later entry
/// for a name wins.
pub struct NameTexts {
    pub entries: Vec<(CName, String)>,
}

impl View for NameTexts {
    type V = Seq<(CName, Seq<char>)>;

    open spec fn view(&self) -> Seq<(CName, Seq<char>)> {
        self.entries@.map_values(|e: (CName, String)| (e.0, e.1@))
    }
}

/// The text of `n`: that of its last entry, or nothing when it has none.
pub open spec fn name_text(s: Seq<(CName, Seq<char>)>, n: CName) -> Seq<char>
    decreases s.len(),
{
    if s.len() == 0 {
        Seq::empty()
    } else if s.last().0 == n {
        s.last().1
    } else {
        name_text(s.drop_last(), n)
    }
}

impl NameTexts {
    /// The text of `n`.
    pub fn text(&self, n: CName) -> (r: String)
        ensures
            r@ == name_text(self@, n),
    {
        let ghost s = self@;
        let mut i: usize = self.entries.len();
        assert(s.take(i as int) =~= s);
        while i > 0
            invariant
                i <= self.entries@.len(),
                s == self@,
                name_text(s, n) == name_text(s.take(i as int), n),
            decreases i,
        {
            let j = i - 1;
            assert(s.take(i as int).drop_last() =~= s.take(j as int));
            assert(s.take(i as int).last() == s[j as int]);
            if self.entries[j].0 == n {
                return self.entries[j].1.clone();
            }
            i = j;
        }
        String::new()
    }
}

/// The name of an action type.
pub open spec fn event_type_text(t: EventActionType) -> Seq<char> {
    match t {
        EventActionType::Play => "Play"@,
        EventActionType::PlayAnimation => "PlayAnimation"@,
        EventActionType::SetParameter => "SetParameter"@,
        EventActionType::StopSound => "StopSound"@,
        EventActionType::SetSwitch => "SetSwitch"@,
        EventActionType::StopTagged => "StopTagged"@,
        EventActionType::PlayExternal => "PlayExternal"@,
        EventActionType::Tag => "Tag"@,
        EventActionType::Untag => "Untag"@,
        EventActionType::SetAppearanceName => "SetAppearanceName"@,
        EventActionType::SetEntityName => "SetEntityName"@,
        EventActionType::AddContainerStreamingPrefetch => "AddContainerStreamingPrefetch"@,
        EventActionType::RemoveContainerStreamingPrefetch => "RemoveContainerStreamingPrefetch"@,
    }
}

fn event_type_name(t: EventActionType) -> (r: String)
    ensures
        r@ == event_type_text(t),
{
    match t {
        EventActionType::Play => String::from_str("Play"),
        EventActionType::PlayAnimation => String::from_str("PlayAnimation"),
        EventActionType::SetParameter => String::from_str("SetParameter"),
        EventActionType::StopSound => String::from_str("StopSound"),
        EventActionType::SetSwitch => String::from_str("SetSwitch"),
        EventActionType::StopTagged => String::from_str("StopTagged"),
        EventActionType::PlayExternal => String::from_str("PlayExternal"),
        EventActionType::Tag => String::from_str("Tag"),
        EventActionType::Untag => String::from_str("Untag"),
        EventActionType::SetAppearanceName => String::from_str("SetAppearanceName"),
        EventActionType::SetEntityName => String::from_str("SetEntityName"),
        EventActionType::AddContainerStreamingPrefetch => String::from_str("AddContainerStreamingPrefetch"),
        EventActionType::RemoveContainerStreamingPrefetch => String::from_str("RemoveContainerStreamingPrefetch"),
    }
}

/// What kind of event fires callbacks: for events that carry an action
/// type, the name of that type.
pub open spec fn fire_kind_text(f: FireCallback) -> Seq<char> {
    match f {
        FireCallback::Play(x) => event_type_text(x.event_type),
        FireCallback::PlayExternal(x) => event_type_text(x.base.event_type),
        FireCallback::PlayOneShot(x) => event_type_text(x.base.event_type),
        FireCallback::SetParameter(x) => event_type_text(x.base.event_type),
        FireCallback::SetSwitch(x) => event_type_text(x.base.event_type),
        FireCallback::Stop(x) => event_type_text(x.event_type),
        FireCallback::StopTagged(x) => event_type_text(x.event_type),
        FireCallback::SetGlobalParameter(_) => "global parameter"@,
        FireCallback::SetAppearanceName(_) => "set appearance name"@,
        FireCallback::SetEntityName(_) => "set entity name"@,
        FireCallback::Tag(_) => "tag"@,
        FireCallback::Untag(_) => "untag"@,
        FireCallback::AddContainerStreamingPrefetch(_) => "add container streaming prefetch"@,
        FireCallback::RemoveContainerStreamingPrefetch(_) => "remove container streaming prefetch"@,
    }
}

fn fire_kind(f: &FireCallback) -> (r: String)
    ensures
        r@ == fire_kind_text(*f),
{
    match f {
        FireCallback::Play(x) => event_type_name(x.event_type),
        FireCallback::PlayExternal(x) => event_type_name(x.base.event_type),
        FireCallback::PlayOneShot(x) => event_type_name(x.base.event_type),
        FireCallback::SetParameter(x) => event_type_name(x.base.event_type),
        FireCallback::SetSwitch(x) => event_type_name(x.base.event_type),
        FireCallback::Stop(x) => event_type_name(x.event_type),
        FireCallback::StopTagged(x) => event_type_name(x.event_type),
        FireCallback::SetGlobalParameter(_) => String::from_str("global parameter"),
        FireCallback::SetAppearanceName(_) => String::from_str("set appearance name"),
        FireCallback::SetEntityName(_) => String::from_str("set entity name"),
        FireCallback::Tag(_) => String::from_str("tag"),
        FireCallback::Untag(_) => String::from_str("untag"),
        FireCallback::AddContainerStreamingPrefetch(_) => String::from_str("add container streaming prefetch"),
        FireCallback::RemoveContainerStreamingPrefetch(_) => String::from_str("remove container streaming prefetch"),
    }
}

/// The line that tells of a callback request, names shown by their texts.
pub open spec fn callback_text(c: Callback, names: Seq<(CName, Seq<char>)>) -> Seq<char> {
    match c {
        Callback::RegisterFunction { event_name, function_name, .. } => "register callback for "@
            + name_text(names, event_name.0) + " to instance class method "@ + name_text(names, function_name.0),
        Callback::RegisterStaticFunction { event_name, class_name, function_name, .. } => "register callback for "@
            + name_text(names, event_name.0) + " to class "@ + name_text(names, class_name.0) + " static method "@
            + name_text(names, function_name.0),
        Callback::Filter { add, .. } => if add {
            "add filter"@
        } else {
            "remove filter"@
        },
        Callback::SetLifetime { sticky, .. } => "set lifetime "@ + (if sticky {
            "Forever"@
        } else {
            "Session"@
        }),
        Callback::FireCallbacks(f) => "fire callback(s) for "@ + fire_kind_text(f) + " event for "@ + name_text(
            names,
            crate::abi::callback::fire_event_name(f).0,
        ),
        Callback::Unregister { .. } => "unregister callback"@,
    }
}

impl Callback {
    /// The line that tells of the request, names shown by their texts in
    /// `names`.
    pub fn describe(&self, names: &NameTexts) -> (r: String)
        ensures
            r@ == callback_text(*self, names@),
    {
        match self {
            Callback::RegisterFunction { event_name, function_name, .. } => {
                let mut s = String::from_str("register callback for ");
                s.append(names.text(event_name.0).as_str());
                s.append(" to instance class method ");
                s.append(names.text(function_name.0).as_str());
                s
            },
            Callback::RegisterStaticFunction { event_name, class_name, function_name, .. } => {
                let mut s = String::from_str("register callback for ");
                s.append(names.text(event_name.0).as_str());
                s.append(" to class ");
                s.append(names.text(class_name.0).as_str());
                s.append(" static method ");
                s.append(names.text(function_name.0).as_str());
                s
            },
            Callback::Filter { add, .. } => if *add {
                String::from_str("add filter")
            } else {
                String::from_str("remove filter")
            },
            Callback::SetLifetime { sticky, .. } => {
                let mut s = String::from_str("set lifetime ");
                if *sticky {
                    s.append("Forever");
                } else {
                    s.append("Session");
                }
                s
            },
            Callback::FireCallbacks(f) => {
                let mut s = String::from_str("fire callback(s) for ");
                s.append(fire_kind(f).as_str());
                s.append(" event for ");
                s.append(names.text(f.event_name().0).as_str());
                s
            },
            Callback::Unregister { .. } => String::from_str("unregister callback"),
        }
    }
}

/// The decimal digits of `n`.
pub open spec fn decimal_text(n: nat) -> Seq<char>
    decreases n,
{
    if n < 10 {
        seq![digit_char(n)]
    } else {
        decimal_text(n / 10).push(digit_char(n % 10))
    }
}

pub open spec fn digit_char(d: nat) -> char {
    if d == 0 {
        '0'
    } else if d == 1 {
        '1'
    } else if d == 2 {
        '2'
    } else if d == 3 {
        '3'
    } else if d == 4 {
        '4'
    } else if d == 5 {
        '5'
    } else if d == 6 {
        '6'
    } else if d == 7 {
        '7'
    } else if d == 8 {
        '8'
    } else {
        '9'
    }
}

fn digit(d: u16) -> (r: &'static str)
    requires
        d < 10,
    ensures
        r@ == seq![digit_char(d as nat)],
{
    let r = if d == 0 {
        "0"
    } else if d == 1 {
        "1"
    } else if d == 2 {
        "2"
    } else if d == 3 {
        "3"
    } else if d == 4 {
        "4"
    } else if d == 5 {
        "5"
    } else if d == 6 {
        "6"
    } else if d == 7 {
        "7"
    } else if d == 8 {
        "8"
    } else {
        "9"
    };
    proof {
        reveal_strlit("0");
        reveal_strlit("1");
        reveal_strlit("2");
        reveal_strlit("3");
        reveal_strlit("4");
        reveal_strlit("5");
        reveal_strlit("6");
        reveal_strlit("7");
        reveal_strlit("8");
        reveal_strlit("9");
    }
    assert(r@ =~= seq![digit_char(d as nat)]);
    r
}

/// `n` in decimal.
pub fn decimal(n: u16) -> (r: String)
    ensures
        r@ == decimal_text(n as nat),
    decreases n,
{
    if n < 10 {
        String::from_str(digit(n))
    } else {
        let mut s = decimal(n / 10);
        s.append(digit(n % 10));
        s
    }
}

pub open spec fn bool_text(b: bool) -> Seq<char> {
    if b {
        "true"@
    } else {
        "false"@
    }
}

fn bool_name(b: bool) -> (r: &'static str)
    ensures
        r@ == bool_text(b),
{
    if b {
        "true"
    } else {
        "false"
    }
}

pub open spec fn session_text(s: Session) -> Seq<char> {
    match s {
        Session::BeforeStart => "BeforeStart"@,
        Session::Start => "Start"@,
        Session::Ready => "Ready"@,
        Session::Pause => "Pause"@,
        Session::Resume => "Resume"@,
        Session::BeforeEnd => "BeforeEnd"@,
        Session::End => "End"@,
    }
}

fn session_name(s: Session) -> (r: &'static str)
    ensures
        r@ == session_text(s),
{
    match s {
        Session::BeforeStart => "BeforeStart",
        Session::Start => "Start",
        Session::Ready => "Ready",
        Session::Pause => "Pause",
        Session::Resume => "Resume",
        Session::BeforeEnd => "BeforeEnd",
        Session::End => "End",
    }
}

pub open spec fn preset_text(p: Preset) -> Seq<char> {
    match p {
        Preset::Off => "None"@,
        Preset::OnThePhone => "OnThePhone"@,
        Preset::Underwater => "Underwater"@,
    }
}

fn preset_name(p: Preset) -> (r: &'static str)
    ensures
        r@ == preset_text(p),
{
    match p {
        Preset::Off => "None",
        Preset::OnThePhone => "OnThePhone",
        Preset::Underwater => "Underwater",
    }
}

/// The line that tells of a request to (un)mute, names shown by their
/// texts, hooks by their bits in decimal.
pub open spec fn replacement_text(n: ReplacementNotification, names: Seq<(CName, Seq<char>)>) -> Seq<char> {
    match n {
        ReplacementNotification::Mute(e) => "replacement mute: "@ + name_text(names, e.0),
        ReplacementNotification::MuteSpecific(e, t) => "replacement mute: "@ + name_text(names, e.0) + ", "@
            + decimal_text(t.bits as nat),
        ReplacementNotification::Unmute(e) => "replacement unmute: "@ + name_text(names, e.0),
        ReplacementNotification::UnmuteSpecific(e, t) => "replacement unmute: "@ + name_text(names, e.0) + ", "@
            + decimal_text(t.bits as nat),
    }
}

/// The line that tells of a notification of the engine loop.
pub open spec fn event_text(e: LoopEvent, names: Seq<(CName, Seq<char>)>) -> Seq<char> {
    match e {
        LoopEvent::Terminate => "terminate"@,
        LoopEvent::ReportInitialization => "report initialization"@,
        LoopEvent::SetMuteInBackground { value } => "set mute in background "@ + bool_text(value),
        LoopEvent::Session(s) => "game session "@ + session_text(s),
        LoopEvent::UIInGameNotificationRemove => "on ui in-game notitification remove event"@,
        LoopEvent::SwitchToScenario { pause_menu } => if pause_menu {
            "on switch to scenario: pause menu"@
        } else {
            "on switch to scenario"@
        },
        LoopEvent::EngagementScreen => "on switch to engagement screen"@,
        LoopEvent::System(s) => system_text(s),
        LoopEvent::UIMenu { opened } => "ui menu "@ + bool_text(opened),
        LoopEvent::Replacement(n) => replacement_text(n, names),
        LoopEvent::EngineWork => "engine work"@,
        LoopEvent::HotReload => "hot-reload"@,
        LoopEvent::Preset(p) => "preset "@ + preset_text(p),
        LoopEvent::Ignored => "ignored"@,
    }
}

fn describe_replacement(n: &ReplacementNotification, names: &NameTexts) -> (r: String)
    ensures
        r@ == replacement_text(*n, names@),
{
    match n {
        ReplacementNotification::Mute(e) => {
            let mut s = String::from_str("replacement mute: ");
            s.append(names.text(e.0).as_str());
            s
        },
        ReplacementNotification::MuteSpecific(e, t) => {
            let mut s = String::from_str("replacement mute: ");
            s.append(names.text(e.0).as_str());
            s.append(", ");
            s.append(decimal(t.bits).as_str());
            s
        },
        ReplacementNotification::Unmute(e) => {
            let mut s = String::from_str("replacement unmute: ");
            s.append(names.text(e.0).as_str());
            s
        },
        ReplacementNotification::UnmuteSpecific(e, t) => {
            let mut s = String::from_str("replacement unmute: ");
            s.append(names.text(e.0).as_str());
            s.append(", ");
            s.append(decimal(t.bits).as_str());
            s
        },
    }
}

impl LoopEvent {
    /// The line that tells of the notification, names shown by their texts
    /// in `names`.
    pub fn describe(&self, names: &NameTexts) -> (r: String)
        ensures
            r@ == event_text(*self, names@),
    {
        match self {
            LoopEvent::Terminate => String::from_str("terminate"),
            LoopEvent::ReportInitialization => String::from_str("report initialization"),
            LoopEvent::SetMuteInBackground { value } => {
                let mut s = String::from_str("set mute in background ");
                s.append(bool_name(*value));
                s
            },
            LoopEvent::Session(x) => {
                let mut s = String::from_str("game session ");
                s.append(session_name(*x));
                s
            },
            LoopEvent::UIInGameNotificationRemove => String::from_str("on ui in-game notitification remove event"),
            LoopEvent::SwitchToScenario { pause_menu } => if *pause_menu {
                String::from_str("on switch to scenario: pause menu")
            } else {
                String::from_str("on switch to scenario")
            },
            LoopEvent::EngagementScreen => String::from_str("on switch to engagement screen"),
            LoopEvent::System(x) => x.describe(),
            LoopEvent::UIMenu { opened } => {
                let mut s = String::from_str("ui menu ");
                s.append(bool_name(*opened));
                s
            },
            LoopEvent::Replacement(n) => describe_replacement(n, names),
            LoopEvent::EngineWork => String::from_str("engine work"),
            LoopEvent::HotReload => String::from_str("hot-reload"),
            LoopEvent::Preset(p) => {
                let mut s = String::from_str("preset ");
                s.append(preset_name(*p));
                s
            },
            LoopEvent::Ignored => String::from_str("ignored"),
        }
    }
}

} // verus!
