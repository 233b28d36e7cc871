//! The room page: the participants of the server and who of them is in
//! voice, the chat history, the message being typed, the mute switch and
//! the settings overlay.
use crate::frontend::application::{
    actions_view,
    AppAction,
    AppActionView,
    Key,
    Message,
    MessageView,
};
use crate::frontend::events::{ClientEvent, ClientEventView, ParticipantInfo, ParticipantView};
use crate::frontend::icons::{IconFont, IconGlyph, Icons};
use crate::frontend::pages::settings::{groups_distinct, settings_step, SettingsPage, SettingsView};
use crate::frontend::state::voice_client::{
    VoiceCommand,
    VoiceCommandResult,
    VoiceCommandResultView,
    VoiceCommandView,
};
use crate::protocol::error::digit_char;
use crate::wire::utf8;
use vstd::std_specs::cmp::OrdSpec;
use std::collections::{BTreeMap, HashMap};
use vstd::prelude::*;

verus! {

/// The longest message, in bytes of UTF-8, that the chat input takes.
pub const MAX_CHAT_MESSAGE_BYTES: usize = 2000;

/// The strftime pattern of the time shown beside a chat message.
pub const CHAT_TIME_FORMAT: &'static str = "%H:%M:%S";

/// `chrono::DateTime::<Utc>::from_timestamp`, then `with_timezone` into
/// `chrono::Local`, its offset's `local_minus_utc`, and `format` with `fmt`
/// written out with `to_string`: the point `secs` seconds and `nsecs`
/// nanoseconds after the Unix epoch, as the machine's offset from UTC at
/// that point (in seconds) and its local time of day after the pattern of
/// the chat time, or `None` when the point is out of chrono's range.  Only
/// that pattern is taken: chrono's `to_string` panics on a pattern it cannot
/// parse.  Chrono keeps an offset under a day, and its local time of day is
/// the UTC second of the day plus the offset, modulo a day (`NaiveTime::
/// overflowing_add_offset`); `%H:%M:%S` writes its hour, minute and second
/// as two zero-padded digits each, separated by ':' (nanoseconds below a
/// second do not show; from a second on they mark a leap second, shown as
/// second 60, of which nothing more is stated).  Every point within 8 * 10^12 seconds of the
/// epoch, about 250,000 years, lies in chrono's range (years -262143 to
/// 262142).  The offset depends on the machine's time zone and is not
/// stated beyond its bound.  (The calls share one item because
/// `chrono::DateTime`, generic over chrono's `TimeZone` trait, cannot be a
/// type of this library's signatures.)
#[verifier::external_body]
fn local_time_text(secs: i64, nsecs: u32, fmt: &str) -> (r: Option<(i32, String)>)
    requires
        fmt@ == CHAT_TIME_FORMAT@,
    ensures
        secs == 0 && nsecs == 0 ==> r is Some,
        -8_000_000_000_000 <= secs <= 8_000_000_000_000 && nsecs < 1_000_000_000 ==> r is Some,
        r matches Some((offset, t)) ==> -86400 < offset < 86400 && (nsecs < 1_000_000_000 ==> t@
            == clock_of((secs + offset) % 86400)),
        r matches Some((_, t)) ==> clock_text(t@),
{
    chrono::DateTime::<chrono::Utc>::from_timestamp(secs, nsecs).map(
        |dt| {
            let local = dt.with_timezone(&chrono::Local);
            (local.offset().local_minus_utc(), local.format(fmt).to_string())
        },
    )
}

/// A decimal digit.
pub open spec fn is_digit(c: char) -> bool {
    '0' <= c && c <= '9'
}

/// Text of the form `HH:MM:SS`.
pub open spec fn clock_text(t: Seq<char>) -> bool {
    &&& t.len() == 8
    &&& t[2] == ':' && t[5] == ':'
    &&& is_digit(t[0]) && is_digit(t[1]) && is_digit(t[3]) && is_digit(t[4])
    &&& is_digit(t[6]) && is_digit(t[7])
}

/// The text `HH:MM:SS` of second `x` of a day: hours, minutes and seconds,
/// two digits each.
pub open spec fn clock_of(x: int) -> Seq<char> {
    let h = x / 3600;
    let m = (x % 3600) / 60;
    let s = x % 60;
    seq![
        digit_char((h / 10) as nat),
        digit_char((h % 10) as nat),
        ':',
        digit_char((m / 10) as nat),
        digit_char((m % 10) as nat),
        ':',
        digit_char((s / 10) as nat),
        digit_char((s % 10) as nat),
    ]
}

/// The value of a decimal digit.
pub open spec fn digit_value(c: char) -> int {
    c as int - '0' as int
}

/// The second of the day that a text `HH:MM:SS` reads as.
pub open spec fn clock_seconds(t: Seq<char>) -> int {
    (digit_value(t[0]) * 10 + digit_value(t[1])) * 3600 + (digit_value(t[3]) * 10 + digit_value(
        t[4],
    )) * 60 + digit_value(t[6]) * 10 + digit_value(t[7])
}

/// The time shown beside a chat message sent `timestamp_ms` milliseconds
/// after the epoch, on a machine `offset` seconds ahead of UTC.
pub open spec fn chat_clock(timestamp_ms: int, offset: int) -> Seq<char> {
    clock_of((timestamp_ms / 1000 + offset) % 86400)
}

/// A digit below ten is written as a digit and read back as itself.
proof fn lemma_digit(d: int)
    requires
        0 <= d < 10,
    ensures
        is_digit(digit_char(d as nat)),
        digit_value(digit_char(d as nat)) == d,
{
}

/// The text of a second of the day is a clock text, and reads back as that
/// second.
pub proof fn lemma_clock_of(x: int)
    requires
        0 <= x < 86400,
    ensures
        clock_text(clock_of(x)),
        clock_seconds(clock_of(x)) == x,
{
    let h = x / 3600;
    let m = (x % 3600) / 60;
    let s = x % 60;
    assert(0 <= h < 24);
    assert(0 <= m < 60);
    lemma_digit(h / 10);
    lemma_digit(h % 10);
    lemma_digit(m / 10);
    lemma_digit(m % 10);
    lemma_digit(s / 10);
    lemma_digit(s % 10);
    assert(h / 10 * 10 + h % 10 == h);
    assert(m / 10 * 10 + m % 10 == m);
    assert(s / 10 * 10 + s % 10 == s);
    assert(h * 3600 + m * 60 + s == x);
}

/// The time shown beside a chat message reads back as the second of the day
/// of its instant on the machine's clock: its timestamp in whole seconds
/// plus the machine's offset, modulo a day; the milliseconds do not show.
pub proof fn lemma_chat_clock_reads_back(timestamp_ms: int, offset: int)
    requires
        0 <= timestamp_ms,
    ensures
        clock_text(chat_clock(timestamp_ms, offset)),
        clock_seconds(chat_clock(timestamp_ms, offset)) == (timestamp_ms / 1000 + offset) % 86400,
{
    lemma_clock_of((timestamp_ms / 1000 + offset) % 86400);
}

/// Under one offset, two messages 1000 ms apart show times one second apart
/// (around midnight, from 23:59:59 to 00:00:00), and messages within the
/// same second show the same time.
pub proof fn lemma_chat_clock_seconds_apart(timestamp_ms: int, offset: int, d: int)
    requires
        0 <= timestamp_ms,
        timestamp_ms % 1000 == 0,
        0 <= d < 1000,
    ensures
        clock_seconds(chat_clock(timestamp_ms + 1000, offset)) == (clock_seconds(
            chat_clock(timestamp_ms, offset),
        ) + 1) % 86400,
        chat_clock(timestamp_ms + d, offset) == chat_clock(timestamp_ms, offset),
{
    let q = timestamp_ms / 1000;
    assert((timestamp_ms + 1000) / 1000 == q + 1) by (nonlinear_arith)
        requires
            q == timestamp_ms / 1000,
            0 <= timestamp_ms,
    ;
    assert((timestamp_ms + d) / 1000 == q) by (nonlinear_arith)
        requires
            q == timestamp_ms / 1000,
            timestamp_ms % 1000 == 0,
            0 <= d < 1000,
            0 <= timestamp_ms,
    ;
    assert((q + 1 + offset) % 86400 == ((q + offset) % 86400 + 1) % 86400) by (nonlinear_arith);
    lemma_chat_clock_reads_back(timestamp_ms, offset);
    lemma_chat_clock_reads_back(timestamp_ms + 1000, offset);
}

#[derive(Clone, Debug)]
pub struct ChatMessage {
    pub username: String,
    pub message: String,
    pub time: String,
}

/// The value of a `ChatMessage`.
pub struct ChatMessageView {
    pub username: Seq<char>,
    pub message: Seq<char>,
    pub time: Seq<char>,
}

impl View for ChatMessage {
    type V = ChatMessageView;

    open spec fn view(&self) -> ChatMessageView {
        ChatMessageView { username: self.username@, message: self.message@, time: self.time@ }
    }
}

impl ChatMessage {
    /// A chat message; `timestamp` is in milliseconds since the Unix epoch
    /// and is shown as the local time of day.
    pub fn new(username: String, message: String, timestamp: u64) -> (m: Self)
        ensures
            m.username == username,
            m.message == message,
            clock_text(m.time@),
    {
        let (time, _) = Self::format_time(timestamp);
        ChatMessage { username, message, time }
    }

    /// The local time of day of a timestamp in milliseconds, with the
    /// machine's offset from UTC (in seconds) at that instant; a timestamp
    /// out of range shows the time of day of the epoch.
    fn format_time(timestamp_ms: u64) -> (r: (String, i32))
        ensures
            clock_text(r.0@),
            -86400 < r.1 < 86400,
            timestamp_ms / 1000 <= 8_000_000_000_000 ==> r.0@ == chat_clock(
                timestamp_ms as int,
                r.1 as int,
            ),
    {
        let secs = (timestamp_ms / 1000) as i64;
        let nanos = ((timestamp_ms % 1000) * 1_000_000) as u32;
        match local_time_text(secs, nanos, CHAT_TIME_FORMAT) {
            Some((offset, text)) => (text, offset),
            None => {
                let (offset, text) = local_time_text(0, 0, CHAT_TIME_FORMAT).unwrap();
                (text, offset)
            },
        }
    }
}

pub struct RoomPage {
    user_id: u64,
    muted: bool,
    chat_message: String,
    participants: HashMap<u64, ParticipantInfo>,
    chat_history: BTreeMap<u64, ChatMessage>,
    show_settings: bool,
    /// The settings page shown as an overlay over the room; it gets every
    /// settings message.
    settings: SettingsPage,
}

#[derive(Debug, Clone)]
pub enum RoomPageMessage {
    MuteToggle,
    JoinLeaveToggle,
    ChatMessageChanged(String),
    ChatMessageSubmitted,
    SettingsToggle,
}

pub enum RoomPageMessageView {
    MuteToggle,
    JoinLeaveToggle,
    ChatMessageChanged(Seq<char>),
    ChatMessageSubmitted,
    SettingsToggle,
}

impl View for RoomPageMessage {
    type V = RoomPageMessageView;

    open spec fn view(&self) -> RoomPageMessageView {
        match self {
            RoomPageMessage::MuteToggle => RoomPageMessageView::MuteToggle,
            RoomPageMessage::JoinLeaveToggle => RoomPageMessageView::JoinLeaveToggle,
            RoomPageMessage::ChatMessageChanged(s) => RoomPageMessageView::ChatMessageChanged(s@),
            RoomPageMessage::ChatMessageSubmitted => RoomPageMessageView::ChatMessageSubmitted,
            RoomPageMessage::SettingsToggle => RoomPageMessageView::SettingsToggle,
        }
    }
}

/// The state of the room page.
pub struct RoomView {
    pub user_id: u64,
    pub muted: bool,
    pub chat_message: Seq<char>,
    pub participants: Map<u64, ParticipantView>,
    pub chat_history: Map<u64, ChatMessageView>,
    pub show_settings: bool,
    pub settings: SettingsView,
}

impl View for RoomPage {
    type V = RoomView;

    closed spec fn view(&self) -> RoomView {
        RoomView {
            user_id: self.user_id,
            muted: self.muted,
            chat_message: self.chat_message@,
            participants: self.participants@.map_values(|p: ParticipantInfo| p@),
            chat_history: self.chat_history@.map_values(|c: ChatMessage| c@),
            show_settings: self.show_settings,
            settings: self.settings@,
        }
    }
}

/// The participants of a list, by user id; a later entry for the same id
/// replaces an earlier one.
pub open spec fn participants_from(list: Seq<ParticipantView>) -> Map<u64, ParticipantView>
    decreases list.len(),
{
    if list.len() == 0 {
        Map::empty()
    } else {
        participants_from(list.drop_last()).insert(list.last().user_id, list.last())
    }
}

/// The participants with the voice flag of `id` set to `flag`, if `id` is
/// one of them.
pub open spec fn with_voice(ps: Map<u64, ParticipantView>, id: u64, flag: bool) -> Map<
    u64,
    ParticipantView,
> {
    if ps.contains_key(id) {
        ps.insert(id, ParticipantView { in_voice: flag, ..ps[id] })
    } else {
        ps
    }
}

/// The user of this client is in the voice channel.
pub open spec fn user_in_voice(v: RoomView) -> bool {
    v.participants.contains_key(v.user_id) && v.participants[v.user_id].in_voice
}

/// The action that runs a voice command.
pub open spec fn run_command(c: VoiceCommandView) -> Seq<AppActionView> {
    seq![AppActionView::Dispatch(MessageView::ExecuteVoiceCommand(c))]
}

/// How the room page handles a message.  `time` is the local time of day
/// shown beside a chat message that arrives.
pub open spec fn room_step(v: RoomView, m: MessageView, time: Seq<char>) -> (
    RoomView,
    Seq<AppActionView>,
) {
    match m {
        MessageView::RoomPage(rm) => match rm {
            RoomPageMessageView::MuteToggle => (RoomView { muted: !v.muted, ..v }, Seq::empty()),
            RoomPageMessageView::JoinLeaveToggle => (
                v,
                run_command(
                    if user_in_voice(v) {
                        VoiceCommandView::LeaveVoiceChannel
                    } else {
                        VoiceCommandView::JoinVoiceChannel
                    },
                ),
            ),
            RoomPageMessageView::ChatMessageChanged(value) => (
                if utf8(value).len() <= MAX_CHAT_MESSAGE_BYTES {
                    RoomView { chat_message: value, ..v }
                } else {
                    v
                },
                Seq::empty(),
            ),
            RoomPageMessageView::ChatMessageSubmitted => {
                if v.chat_message.len() > 0 {
                    (
                        RoomView { chat_message: Seq::empty(), ..v },
                        run_command(VoiceCommandView::SendChatMessage(v.chat_message)),
                    )
                } else {
                    (v, Seq::empty())
                }
            },
            RoomPageMessageView::SettingsToggle => (
                RoomView { show_settings: !v.show_settings, ..v },
                Seq::empty(),
            ),
        },
        MessageView::VoiceCommandResult(VoiceCommandResultView::JoinVoiceChannel(Ok(()))) => (
            RoomView { participants: with_voice(v.participants, v.user_id, true), ..v },
            Seq::empty(),
        ),
        MessageView::VoiceCommandResult(VoiceCommandResultView::LeaveVoiceChannel(Ok(()))) => (
            RoomView { participants: with_voice(v.participants, v.user_id, false), ..v },
            Seq::empty(),
        ),
        MessageView::ServerEventReceived(e) => match e {
            ClientEventView::ParticipantsList { user_id, participants } => (
                RoomView { user_id, participants: participants_from(participants), ..v },
                Seq::empty(),
            ),
            ClientEventView::UserJoinedServer { user_id, username } => (
                RoomView {
                    participants: v.participants.insert(
                        user_id,
                        ParticipantView { user_id, username, in_voice: false },
                    ),
                    ..v
                },
                Seq::empty(),
            ),
            ClientEventView::UserJoinedVoice { user_id } => (
                RoomView { participants: with_voice(v.participants, user_id, true), ..v },
                Seq::empty(),
            ),
            ClientEventView::UserLeftVoice { user_id } => (
                RoomView { participants: with_voice(v.participants, user_id, false), ..v },
                Seq::empty(),
            ),
            ClientEventView::UserLeftServer { user_id } => (
                RoomView { participants: v.participants.remove(user_id), ..v },
                Seq::empty(),
            ),
            ClientEventView::UserSentMessage { user_id, timestamp, message } => {
                if v.participants.contains_key(user_id) {
                    (
                        RoomView {
                            chat_history: v.chat_history.insert(
                                timestamp,
                                ChatMessageView {
                                    username: v.participants[user_id].username,
                                    message,
                                    time,
                                },
                            ),
                            ..v
                        },
                        seq![AppActionView::ScrollChatToEnd],
                    )
                } else {
                    (v, Seq::empty())
                }
            },
        },
        MessageView::SettingsPage(_) => {
            let (settings, actions) = settings_step(v.settings, m);
            (RoomView { settings, ..v }, actions)
        },
        MessageView::KeyPressed(k) => {
            if v.show_settings && k == Key::Escape {
                (RoomView { show_settings: false, ..v }, Seq::empty())
            } else {
                (v, Seq::empty())
            }
        },
        _ => (v, Seq::empty()),
    }
}

/// The chat input never holds more than `MAX_CHAT_MESSAGE_BYTES` bytes of
/// text: no message takes it past that bound.
pub proof fn lemma_chat_input_bounded(v: RoomView, m: MessageView, time: Seq<char>)
    requires
        utf8(v.chat_message).len() <= MAX_CHAT_MESSAGE_BYTES,
    ensures
        utf8(room_step(v, m, time).0.chat_message).len() <= MAX_CHAT_MESSAGE_BYTES,
{
    assert(utf8(Seq::<char>::empty()) =~= Seq::<u8>::empty());
}

/// Submitting a non-empty chat input sends exactly the text typed and
/// empties the input; an empty input sends nothing.
pub proof fn lemma_chat_submit(v: RoomView, time: Seq<char>)
    ensures
        v.chat_message.len() > 0 ==> room_step(
            v,
            MessageView::RoomPage(RoomPageMessageView::ChatMessageSubmitted),
            time,
        ) == (
            RoomView { chat_message: Seq::empty(), ..v },
            run_command(VoiceCommandView::SendChatMessage(v.chat_message)),
        ),
        v.chat_message.len() == 0 ==> room_step(
            v,
            MessageView::RoomPage(RoomPageMessageView::ChatMessageSubmitted),
            time,
        ) == (v, Seq::<AppActionView>::empty()),
{
}

/// Toggling the mute switch twice leaves the page as it was.
pub proof fn lemma_mute_toggle_twice(v: RoomView, time: Seq<char>)
    ensures
        room_step(
            room_step(v, MessageView::RoomPage(RoomPageMessageView::MuteToggle), time).0,
            MessageView::RoomPage(RoomPageMessageView::MuteToggle),
            time,
        ).0 == v,
{
}

/// The join/leave button leaves the voice channel when this client is in
/// it, and joins it otherwise; a successful join or leave then sets this
/// client's voice flag accordingly when it is a listed participant.
pub proof fn lemma_join_leave(v: RoomView, time: Seq<char>)
    ensures
        room_step(v, MessageView::RoomPage(RoomPageMessageView::JoinLeaveToggle), time).1
            == run_command(
            if user_in_voice(v) {
                VoiceCommandView::LeaveVoiceChannel
            } else {
                VoiceCommandView::JoinVoiceChannel
            },
        ),
        v.participants.contains_key(v.user_id) ==> user_in_voice(
            room_step(
                v,
                MessageView::VoiceCommandResult(VoiceCommandResultView::JoinVoiceChannel(Ok(()))),
                time,
            ).0,
        ),
        !user_in_voice(
            room_step(
                v,
                MessageView::VoiceCommandResult(VoiceCommandResultView::LeaveVoiceChannel(Ok(()))),
                time,
            ).0,
        ),
{
}

/// A message from a listed participant is kept under its timestamp with the
/// sender's name and its text; one from anyone else is not kept.
pub proof fn lemma_chat_message_kept(
    v: RoomView,
    user_id: u64,
    timestamp: u64,
    message: Seq<char>,
    time: Seq<char>,
)
    ensures
        ({
            let after = room_step(
                v,
                MessageView::ServerEventReceived(
                    ClientEventView::UserSentMessage { user_id, timestamp, message },
                ),
                time,
            ).0;
            &&& v.participants.contains_key(user_id) ==> after.chat_history.contains_key(timestamp)
                && after.chat_history[timestamp].username == v.participants[user_id].username
                && after.chat_history[timestamp].message == message
            &&& !v.participants.contains_key(user_id) ==> after == v
        }),
{
}

/// The tint of an icon or text of the room page.
#[derive(Debug, Clone, Copy, PartialEq, Eq, Structural)]
pub enum Tone {
    Secondary,
    Success,
    Alert,
}

/// The side of the mute switch its knob sits on.
#[derive(Debug, Clone, Copy, PartialEq, Eq, Structural)]
pub enum KnobSide {
    Left,
    Right,
}

/// How the mute switch is drawn: muted puts the knob left and tints the
/// crossed-out microphone as an alert; unmuted puts it right and tints the
/// microphone as a success.
#[derive(Debug, Clone, Copy, PartialEq, Eq, Structural)]
pub struct MuteSliderLook {
    pub knob: KnobSide,
    pub muted_icon: Tone,
    pub unmuted_icon: Tone,
}

pub open spec fn mute_look(muted: bool) -> MuteSliderLook {
    if muted {
        MuteSliderLook { knob: KnobSide::Left, muted_icon: Tone::Alert, unmuted_icon: Tone::Secondary }
    } else {
        MuteSliderLook { knob: KnobSide::Right, muted_icon: Tone::Secondary, unmuted_icon: Tone::Success }
    }
}

/// How the mute switch is drawn.
pub fn mute_slider_look(muted: bool) -> (look: MuteSliderLook)
    ensures
        look == mute_look(muted),
{
    if muted {
        MuteSliderLook { knob: KnobSide::Left, muted_icon: Tone::Alert, unmuted_icon: Tone::Secondary }
    } else {
        MuteSliderLook { knob: KnobSide::Right, muted_icon: Tone::Secondary, unmuted_icon: Tone::Success }
    }
}

/// The icon beside a member: a microphone for members in voice, a chat
/// bubble for the others.
pub fn member_icon(in_voice: bool) -> (icon: (IconGlyph, Tone))
    ensures
        in_voice ==> icon == (IconGlyph { codepoint: '\u{E326}', font: IconFont::Fill }, Tone::Success),
        !in_voice ==> icon == (
            IconGlyph { codepoint: '\u{E176}', font: IconFont::Fill },
            Tone::Secondary,
        ),
{
    if in_voice {
        (Icons::microphone_fill(), Tone::Success)
    } else {
        (Icons::chat_teardrop_dots_fill(), Tone::Secondary)
    }
}

/// The title of the members section of those in voice or in chat.
pub fn section_title(in_voice: bool) -> (title: &'static str)
    ensures
        in_voice ==> title@ == "IN VOICE"@,
        !in_voice ==> title@ == "IN CHAT"@,
{
    proof {
        reveal_strlit("IN VOICE");
        reveal_strlit("IN CHAT");
    }
    if in_voice {
        "IN VOICE"
    } else {
        "IN CHAT"
    }
}

/// The user ids of the members in voice (`in_voice`) or only in chat.
pub open spec fn group_ids(v: RoomView, in_voice: bool) -> Set<u64> {
    v.participants.dom().filter(|id: u64| v.participants[id].in_voice == in_voice)
}

/// `keys` lists the keys of a map in increasing order.
pub open spec fn sorted_listing(keys: Seq<u64>, dom: Set<u64>) -> bool {
    &&& keys.to_set() == dom
    &&& forall|a: int, b: int| 0 <= a < b < keys.len() ==> keys[a] < keys[b]
}

/// A time of day to stand for messages that show none.
pub open spec fn midnight() -> Seq<char> {
    seq!['0', '0', ':', '0', '0', ':', '0', '0']
}

impl ParticipantInfo {
    /// A copy of the participant with its voice flag set to `in_voice`.
    pub fn with_voice(&self, in_voice: bool) -> (p: ParticipantInfo)
        ensures
            p@ == (ParticipantView { in_voice, ..self@ }),
    {
        ParticipantInfo { user_id: self.user_id, username: self.username.clone(), in_voice }
    }
}

impl RoomPage {
    /// The room page, with `settings` as its settings overlay.
    pub fn new(settings: SettingsPage) -> (page: Self)
        ensures
            page@.settings == settings@,
            page@.user_id == 0,
            !page@.muted,
            page@.chat_message == Seq::<char>::empty(),
            page@.participants == Map::<u64, ParticipantView>::empty(),
            page@.chat_history == Map::<u64, ChatMessageView>::empty(),
            !page@.show_settings,
    {
        let page = RoomPage {
            user_id: 0,
            muted: false,
            chat_message: String::new(),
            participants: HashMap::new(),
            chat_history: BTreeMap::new(),
            show_settings: false,
            settings,
        };
        assert(page@.participants =~= Map::<u64, ParticipantView>::empty());
        assert(page@.chat_history =~= Map::<u64, ChatMessageView>::empty());
        page
    }

    pub fn is_in_voice(&self) -> (b: bool)
        ensures
            b == user_in_voice(self@),
    {
        match self.participants.get(&self.user_id) {
            Some(p) => p.in_voice,
            None => false,
        }
    }

    pub fn user_id(&self) -> (id: u64)
        ensures
            id == self@.user_id,
    {
        self.user_id
    }

    pub fn is_muted(&self) -> (m: bool)
        ensures
            m == self@.muted,
    {
        self.muted
    }

    /// The text typed in the chat input.
    pub fn chat_message(&self) -> (m: &String)
        ensures
            m@ == self@.chat_message,
    {
        &self.chat_message
    }

    /// The participant with this user id, if any.
    pub fn participant(&self, user_id: u64) -> (p: Option<&ParticipantInfo>)
        ensures
            match p {
                Some(info) => self@.participants.contains_key(user_id) && info@
                    == self@.participants[user_id],
                None => !self@.participants.contains_key(user_id),
            },
    {
        self.participants.get(&user_id)
    }

    /// The chat message received at this timestamp, if any.
    pub fn chat_entry(&self, timestamp: u64) -> (m: Option<&ChatMessage>)
        ensures
            match m {
                Some(c) => self@.chat_history.contains_key(timestamp) && c@
                    == self@.chat_history[timestamp],
                None => !self@.chat_history.contains_key(timestamp),
            },
    {
        self.chat_history.get(&timestamp)
    }

    /// The label of the button that joins or leaves the voice channel.
    pub fn voice_button_label(&self) -> (label: &'static str)
        ensures
            user_in_voice(self@) ==> label@ == "Leave voice"@,
            !user_in_voice(self@) ==> label@ == "Join voice"@,
    {
        proof {
            reveal_strlit("Leave voice");
            reveal_strlit("Join voice");
        }
        if self.is_in_voice() {
            "Leave voice"
        } else {
            "Join voice"
        }
    }

    /// Whether the mute switch is shown: only in the voice channel.
    pub fn shows_mute_slider(&self) -> (b: bool)
        ensures
            b == user_in_voice(self@),
    {
        self.is_in_voice()
    }

    /// Whether the chat input can be sent: it holds text.
    pub fn can_send_chat(&self) -> (b: bool)
        ensures
            b == (self@.chat_message.len() > 0),
    {
        !self.chat_message.as_str().is_empty()
    }

    /// The user ids of the participants, each once, in the map's order.
    fn participant_ids(&self) -> (ids: Vec<u64>)
        ensures
            ids@.no_duplicates(),
            ids@.to_set() == self@.participants.dom(),
    {
        let ghost dom = self.participants@.dom();
        let mut ids: Vec<u64> = Vec::new();
        for k in it: self.participants.keys()
            invariant
                dom == self.participants@.dom(),
                it.seq().unref().to_set() == dom,
                it.seq().unref().no_duplicates(),
                ids@.len() == it.index(),
                forall|i: int| 0 <= i < it.index() ==> ids@[i] == *it.seq()[i],
                forall|i: int| 0 <= i < ids@.len() ==> dom.contains(#[trigger] ids@[i]),
                ids@.no_duplicates(),
                forall|x: u64| #[trigger]
                    dom.contains(x) ==> ids@.contains(x) || exists|j: int|
                        it.index() <= j < it.seq().len() && *it.seq()[j] == x,
            ensures
                ids@.no_duplicates(),
                forall|i: int| 0 <= i < ids@.len() ==> dom.contains(#[trigger] ids@[i]),
                forall|x: u64| #[trigger] dom.contains(x) ==> ids@.contains(x),
        {
            let ghost s = it.seq().unref();
            let ghost idx = it.index();
            let ghost before = ids@;
            proof {
                assert(s[idx] == *k);
                assert(s.contains(s[idx]));
                assert(s.to_set().contains(*k));
                assert forall|i: int| 0 <= i < before.len() implies before[i] != *k by {
                    assert(s[i] == before[i]);
                }
            }
            ids.push(*k);
            proof {
                assert forall|x: u64| #[trigger]
                    dom.contains(x) implies ids@.contains(x) || exists|j: int|
                        idx + 1 <= j < s.len() && s[j] == x by {
                    if !before.contains(x) {
                        let j = choose|j: int| idx <= j < s.len() && s[j] == x;
                        if j == idx {
                            assert(ids@[idx] == x);
                        }
                    } else {
                        let i = choose|i: int| 0 <= i < before.len() && before[i] == x;
                        assert(ids@[i] == x);
                    }
                }
            }
        }
        assert(ids@.to_set() =~= dom) by {
            assert forall|x: u64| ids@.to_set().contains(x) implies dom.contains(x) by {
                let i = choose|i: int| 0 <= i < ids@.len() && ids@[i] == x;
            }
        }
        ids
    }

    /// The members in voice (`in_voice`) or only in chat, each once, in the
    /// order of the participant map.
    pub fn members(&self, in_voice: bool) -> (list: Vec<ParticipantInfo>)
        ensures
            exists|ids: Seq<u64>|
                ids.no_duplicates() && ids.to_set() == group_ids(self@, in_voice) && list@.map_values(
                    |p: ParticipantInfo| p@,
                ) == ids.map_values(|id: u64| self@.participants[id]),
    {
        let all = self.participant_ids();
        let ghost v = self@;
        let mut list: Vec<ParticipantInfo> = Vec::new();
        let ghost mut ids: Seq<u64> = Seq::empty();
        let mut i: usize = 0;
        while i < all.len()
            invariant
                v == self@,
                i <= all@.len(),
                all@.no_duplicates(),
                all@.to_set() == v.participants.dom(),
                ids.no_duplicates(),
                forall|j: int| 0 <= j < ids.len() ==> #[trigger] group_ids(v, in_voice).contains(ids[j]),
                forall|j: int| 0 <= j < ids.len() ==> exists|k: int| 0 <= k < i && all@[k] == #[trigger] ids[j],
                forall|k: int| 0 <= k < i && #[trigger] group_ids(v, in_voice).contains(all@[k]) ==> ids.contains(all@[k]),
                list@.map_values(|p: ParticipantInfo| p@) == ids.map_values(|id: u64| v.participants[id]),
            decreases all.len() - i,
        {
            let id = all[i];
            assert(all@.to_set().contains(id)) by {
                assert(all@.contains(all@[i as int]));
            }
            let entry = self.participants.get(&id);
            match entry {
                Some(p) => {
                    if p.in_voice == in_voice {
                        let ghost before = list@.map_values(|p: ParticipantInfo| p@);
                        let ghost old_ids = ids;
                        proof {
                            assert forall|j: int| 0 <= j < ids.len() implies ids[j] != id by {
                                let k = choose|k: int| 0 <= k < i && all@[k] == ids[j];
                                assert(all@[k] != all@[i as int]);
                            }
                        }
                        let copy = p.with_voice(p.in_voice);
                        assert(copy@ == v.participants[id]);
                        list.push(copy);
                        proof {
                            ids = ids.push(id);
                            assert(group_ids(v, in_voice).contains(id));
                            assert(list@.map_values(|p: ParticipantInfo| p@) =~= before.push(copy@));
                            assert(ids.map_values(|id: u64| v.participants[id]) =~= old_ids.map_values(
                                |id: u64| v.participants[id],
                            ).push(v.participants[id]));
                            assert forall|j: int| 0 <= j < ids.len() implies exists|k: int|
                                0 <= k < i + 1 && all@[k] == #[trigger] ids[j] by {
                                if j == ids.len() - 1 {
                                    assert(all@[i as int] == ids[j]);
                                } else {
                                    assert(ids[j] == old_ids[j]);
                                }
                            }
                            assert forall|k: int|
                                0 <= k < i + 1 && #[trigger] group_ids(v, in_voice).contains(
                                    all@[k],
                                ) implies ids.contains(all@[k]) by {
                                if k == i {
                                    assert(ids[ids.len() - 1] == id);
                                } else {
                                    assert(old_ids.contains(all@[k]));
                                    let j = choose|j: int| 0 <= j < old_ids.len() && old_ids[j] == all@[k];
                                    assert(ids[j] == all@[k]);
                                }
                            }
                        }
                    }
                },
                None => {},
            }
            i = i + 1;
        }
        assert(ids.to_set() =~= group_ids(v, in_voice)) by {
            assert forall|x: u64| group_ids(v, in_voice).contains(x) implies ids.to_set().contains(x) by {
                assert(v.participants.dom().contains(x));
                assert(all@.to_set().contains(x));
                let k = choose|k: int| 0 <= k < all@.len() && all@[k] == x;
            }
            assert forall|x: u64| ids.to_set().contains(x) implies group_ids(v, in_voice).contains(x) by {
                let j = choose|j: int| 0 <= j < ids.len() && ids[j] == x;
            }
        }
        list
    }

    /// The chat history in order of timestamp.
    pub fn chat_lines(&self) -> (lines: Vec<ChatMessage>)
        ensures
            exists|keys: Seq<u64>|
                sorted_listing(keys, self@.chat_history.dom()) && lines@.map_values(
                    |c: ChatMessage| c@,
                ) == keys.map_values(|k: u64| self@.chat_history[k]),
    {
        let ghost v = self@;
        let mut lines: Vec<ChatMessage> = Vec::new();
        let ghost mut keys: Seq<u64> = Seq::empty();
        for k in it: self.chat_history.keys()
            invariant
                v == self@,
                it.seq().unref().to_set() == v.chat_history.dom(),
                it.seq().unref().no_duplicates(),
                vstd::std_specs::btree::increasing_seq(it.seq()),
                keys.len() == it.index(),
                forall|i: int| 0 <= i < it.index() ==> keys[i] == *it.seq()[i],
                lines@.map_values(|c: ChatMessage| c@) == keys.map_values(|k: u64| v.chat_history[k]),
                forall|i: int| 0 <= i < keys.len() ==> v.chat_history.dom().contains(#[trigger] keys[i]),
                forall|a: int, b: int| 0 <= a < b < keys.len() ==> keys[a] < keys[b],
                forall|x: u64| #[trigger]
                    v.chat_history.dom().contains(x) ==> keys.contains(x) || exists|j: int|
                        it.index() <= j < it.seq().len() && *it.seq()[j] == x,
            ensures
                lines@.map_values(|c: ChatMessage| c@) == keys.map_values(|k: u64| v.chat_history[k]),
                forall|i: int| 0 <= i < keys.len() ==> v.chat_history.dom().contains(#[trigger] keys[i]),
                forall|a: int, b: int| 0 <= a < b < keys.len() ==> keys[a] < keys[b],
                forall|x: u64| #[trigger] v.chat_history.dom().contains(x) ==> keys.contains(x),
        {
            let ghost s = it.seq().unref();
            let ghost idx = it.index();
            let ghost before = keys;
            proof {
                assert(s[idx] == *k);
                assert(s.contains(s[idx]));
                assert(s.to_set().contains(*k));
                assert(vstd::laws_cmp::obeys_cmp::<u64>());
                assert(vstd::laws_cmp::obeys_cmp::<&u64>());
                vstd::std_specs::btree::axiom_increasing_seq_meaning::<&u64>(it.seq());
                assert forall|a: int| 0 <= a < idx implies before[a] < *k by {
                    assert(before[a] == s[a]);
                    assert(OrdSpec::cmp_spec(&it.seq()[a], &it.seq()[idx]) is Less);
                }
            }
            match self.chat_history.get(k) {
                Some(c) => {
                    let ghost lines_before = lines@.map_values(|c: ChatMessage| c@);
                    let copy = ChatMessage {
                        username: c.username.clone(),
                        message: c.message.clone(),
                        time: c.time.clone(),
                    };
                    assert(copy@ == v.chat_history[*k]);
                    let ghost old_keys = keys;
                    lines.push(copy);
                    proof {
                        keys = keys.push(*k);
                        assert(lines@.map_values(|c: ChatMessage| c@) =~= lines_before.push(copy@));
                        assert(keys.map_values(|k: u64| v.chat_history[k]) =~= old_keys.map_values(
                            |k: u64| v.chat_history[k],
                        ).push(v.chat_history[*k]));
                        assert forall|x: u64| #[trigger]
                            v.chat_history.dom().contains(x) implies keys.contains(x) || exists|j: int|
                                idx + 1 <= j < s.len() && s[j] == x by {
                            if !before.contains(x) {
                                let j = choose|j: int| idx <= j < s.len() && s[j] == x;
                                if j == idx {
                                    assert(keys[idx] == x);
                                }
                            } else {
                                let i = choose|i: int| 0 <= i < before.len() && before[i] == x;
                                assert(keys[i] == x);
                            }
                        }
                    }
                },
                None => {
                    proof {
                        assert(false);
                    }
                },
            }
        }
        proof {
            assert(keys.to_set() =~= v.chat_history.dom()) by {
                assert forall|x: u64| keys.to_set().contains(x) implies v.chat_history.dom().contains(x) by {
                    let i = choose|i: int| 0 <= i < keys.len() && keys[i] == x;
                }
            }
            assert(sorted_listing(keys, v.chat_history.dom()));
        }
        lines
    }

    /// The settings overlay.
    pub fn settings(&self) -> (page: &SettingsPage)
        ensures
            page@ == self@.settings,
    {
        &self.settings
    }

    /// Whether the settings overlay is shown over the room.
    pub fn shows_settings(&self) -> (b: bool)
        ensures
            b == self@.show_settings,
    {
        self.show_settings
    }

    /// Set the voice flag of participant `id`, if there is one.
    fn set_voice(&mut self, id: u64, flag: bool)
        ensures
            final(self)@ == (RoomView {
                participants: with_voice(old(self)@.participants, id, flag),
                ..old(self)@
            }),
    {
        let updated = match self.participants.get(&id) {
            Some(p) => Some(p.with_voice(flag)),
            None => None,
        };
        match updated {
            Some(p) => {
                self.participants.insert(id, p);
                assert(self@.participants =~= with_voice(old(self)@.participants, id, flag));
            },
            None => {},
        }
    }

    /// Replace the participants by those of a list.
    fn set_participants(&mut self, list: &Vec<ParticipantInfo>)
        ensures
            final(self)@ == (RoomView {
                participants: participants_from(list@.map_values(|p: ParticipantInfo| p@)),
                ..old(self)@
            }),
    {
        let ghost views = list@.map_values(|p: ParticipantInfo| p@);
        let mut map: HashMap<u64, ParticipantInfo> = HashMap::new();
        let mut i: usize = 0;
        assert(map@.map_values(|p: ParticipantInfo| p@) =~= participants_from(views.take(0)));
        while i < list.len()
            invariant
                i <= list.len(),
                views == list@.map_values(|p: ParticipantInfo| p@),
                map@.map_values(|p: ParticipantInfo| p@) == participants_from(views.take(i as int)),
            decreases list.len() - i,
        {
            let info = &list[i];
            let copy = info.with_voice(info.in_voice);
            map.insert(info.user_id, copy);
            assert(views.take(i + 1).drop_last() =~= views.take(i as int));
            assert(map@.map_values(|p: ParticipantInfo| p@) =~= participants_from(
                views.take(i + 1),
            ));
            i = i + 1;
        }
        assert(views.take(list.len() as int) =~= views);
        self.participants = map;
    }

    /// The page's reaction to a message (see `room_step`); a chat message is
    /// kept under the local time of its timestamp.
    pub fn update(&mut self, message: &Message) -> (actions: Vec<AppAction>)
        requires
            groups_distinct(old(self)@.settings.hover),
        ensures
            exists|time: Seq<char>|
                clock_text(time) && (final(self)@, actions_view(actions@)) == room_step(
                    old(self)@,
                    message@,
                    time,
                ),
            groups_distinct(final(self)@.settings.hover),
    {
        let ghost mut time = midnight();
        let mut actions: Vec<AppAction> = Vec::new();
        match message {
            Message::RoomPage(room_message) => match room_message {
                RoomPageMessage::MuteToggle => {
                    self.muted = !self.muted;
                },
                RoomPageMessage::JoinLeaveToggle => {
                    let command = if self.is_in_voice() {
                        VoiceCommand::LeaveVoiceChannel
                    } else {
                        VoiceCommand::JoinVoiceChannel
                    };
                    actions.push(AppAction::Dispatch(Message::ExecuteVoiceCommand(command)));
                },
                RoomPageMessage::ChatMessageChanged(value) => {
                    if value.as_str().as_bytes().len() <= MAX_CHAT_MESSAGE_BYTES {
                        self.chat_message = value.clone();
                    }
                },
                RoomPageMessage::ChatMessageSubmitted => {
                    if !self.chat_message.as_str().is_empty() {
                        let message = self.chat_message.clone();
                        self.chat_message = String::new();
                        actions.push(
                            AppAction::Dispatch(
                                Message::ExecuteVoiceCommand(VoiceCommand::SendChatMessage(message)),
                            ),
                        );
                    }
                },
                RoomPageMessage::SettingsToggle => {
                    self.show_settings = !self.show_settings;
                },
            },
            Message::VoiceCommandResult(result) => match result {
                VoiceCommandResult::JoinVoiceChannel(Ok(())) => {
                    let id = self.user_id;
                    self.set_voice(id, true);
                },
                VoiceCommandResult::LeaveVoiceChannel(Ok(())) => {
                    let id = self.user_id;
                    self.set_voice(id, false);
                },
                _ => {},
            },
            Message::ServerEventReceived(event) => match event {
                ClientEvent::ParticipantsList { user_id, participants } => {
                    self.user_id = *user_id;
                    self.set_participants(participants);
                },
                ClientEvent::UserJoinedServer { user_id, username } => {
                    self.participants.insert(
                        *user_id,
                        ParticipantInfo { user_id: *user_id, username: username.clone(), in_voice: false },
                    );
                    assert(self@.participants =~= old(self)@.participants.insert(
                        *user_id,
                        ParticipantView { user_id: *user_id, username: username@, in_voice: false },
                    ));
                },
                ClientEvent::UserJoinedVoice { user_id } => {
                    self.set_voice(*user_id, true);
                },
                ClientEvent::UserLeftVoice { user_id } => {
                    self.set_voice(*user_id, false);
                },
                ClientEvent::UserLeftServer { user_id } => {
                    self.participants.remove(user_id);
                    assert(self@.participants =~= old(self)@.participants.remove(*user_id));
                },
                ClientEvent::UserSentMessage { user_id, timestamp, message } => {
                    let sender = match self.participants.get(user_id) {
                        Some(participant) => Some(participant.username.clone()),
                        None => None,
                    };
                    match sender {
                        Some(username) => {
                            let chat_msg = ChatMessage::new(username, message.clone(), *timestamp);
                            proof {
                                time = chat_msg.time@;
                            }
                            self.chat_history.insert(*timestamp, chat_msg);
                            assert(self@.chat_history =~= old(self)@.chat_history.insert(
                                *timestamp,
                                ChatMessageView {
                                    username: old(self)@.participants[*user_id].username,
                                    message: message@,
                                    time,
                                },
                            ));
                            actions.push(AppAction::ScrollChatToEnd);
                        },
                        None => {},
                    }
                },
            },
            Message::SettingsPage(_) => {
                actions = self.settings.update(message);
            },
            Message::KeyPressed(key) => {
                if self.show_settings && *key == Key::Escape {
                    self.show_settings = false;
                }
            },
            _ => {},
        }
        assert(actions_view(actions@) =~= room_step(old(self)@, message@, time).1);
        assert(self@ == room_step(old(self)@, message@, time).0);
        assert(clock_text(time));
        actions
    }
}

} // verus!
