use voiceapp::frontend::notification::{Chunk, NotificationPlayback};
use voiceapp::frontend::pages::room::{member_icon, mute_slider_look, section_title, KnobSide, Tone};
use voiceapp::frontend::pages::settings::RadioPosition;
use voiceapp::frontend::audio::{find_best_stream_config, SampleFormat, StreamChoice, StreamConfigRange};
use voiceapp::desktop::application::ViewType;
use voiceapp::desktop::state::config::ConfigState;
use voiceapp::frontend::application::{
    connect_to,
    server_host,
    service_address,
    AppAction,
    Application,
    ClientStatus,
    Key,
    Message,
    Notification,
    PageType,
};
use voiceapp::frontend::config::{AppConfig, ServerConfig};
use voiceapp::frontend::events::{ClientEvent, ParticipantInfo};
use voiceapp::frontend::icons::{IconFont, Icons};
use voiceapp::frontend::pages::login::{LoginPage, LoginPageMessage};
use voiceapp::frontend::pages::room::{ChatMessage, RoomPage, RoomPageMessage};
use voiceapp::frontend::pages::settings::{SettingsPage, SettingsPageMessage};
use voiceapp::frontend::state::audio_manager::{set_members, AudioManagerState};
use voiceapp::frontend::state::voice_client::{
    connect_result,
    VoiceClientState,
    VoiceCommand,
    VoiceCommandResult,
};

fn config(address: &str, username: &str) -> AppConfig {
    AppConfig {
        server: ServerConfig { address: address.to_string(), username: username.to_string() },
    }
}

fn participant(user_id: u64, name: &str, in_voice: bool) -> ParticipantInfo {
    ParticipantInfo { user_id, username: name.to_string(), in_voice }
}

fn is_clock_text(t: &str) -> bool {
    let b = t.as_bytes();
    b.len() == 8
        && b[2] == b':'
        && b[5] == b':'
        && [0, 1, 3, 4, 6, 7].iter().all(|&i| b[i].is_ascii_digit())
}

#[test]
fn default_config_is_empty() {
    let c = AppConfig::default();
    assert_eq!(c.server.address, "");
    assert_eq!(c.server.username, "");
    assert!(!c.server.is_credentials_filled());
    assert!(config("127.0.0.1", "alice").server.is_credentials_filled());
    assert!(!config("127.0.0.1", "").server.is_credentials_filled());
    assert!(!config("", "alice").server.is_credentials_filled());
    assert!(c.same_as(&c.snapshot()));
    assert!(!c.same_as(&config("x", "")));
}

#[test]
fn addresses_and_hosts() {
    assert_eq!(service_address("10.0.0.5", "9001"), "10.0.0.5:9001");
    assert_eq!(server_host("10.0.0.5:9001"), "10.0.0.5");
    assert_eq!(server_host("localhost"), "localhost");
    assert_eq!(server_host(":9001"), "");
    assert_eq!(server_host("a:b:c"), "a");
    match connect_to("example.org", "bob") {
        VoiceCommand::Connect { management_addr, voice_addr, username } => {
            assert_eq!(management_addr, "example.org:9001");
            assert_eq!(voice_addr, "example.org:9002");
            assert_eq!(username, "bob");
        }
        other => panic!("unexpected {:?}", other),
    }
}

#[test]
fn connect_results() {
    match connect_result(Ok(42), "host.example:9001", "carol") {
        VoiceCommandResult::Connect(Ok((id, host, name))) => {
            assert_eq!(id, 42);
            assert_eq!(host, "host.example");
            assert_eq!(name, "carol");
        }
        other => panic!("unexpected {:?}", other),
    }
    match connect_result(Err("refused".to_string()), "h:1", "x") {
        VoiceCommandResult::Connect(Err(e)) => assert_eq!(e, "refused"),
        other => panic!("unexpected {:?}", other),
    }
}

#[test]
fn login_page_form_and_submit() {
    let mut page = LoginPage::new(&config("", ""));
    assert!(!page.is_form_filled());
    let acts = page.update(&Message::LoginPage(LoginPageMessage::LoginSubmitted));
    assert!(acts.is_empty());
    page.update(&Message::LoginPage(LoginPageMessage::VoiceUrlChanged("10.1.1.1".to_string())));
    assert!(!page.is_form_filled());
    page.update(&Message::LoginPage(LoginPageMessage::UsernameChanged("dave".to_string())));
    assert!(page.is_form_filled());
    let acts = page.update(&Message::LoginPage(LoginPageMessage::LoginSubmitted));
    assert_eq!(acts.len(), 1);
    match &acts[0] {
        AppAction::Dispatch(Message::ExecuteVoiceCommand(VoiceCommand::Connect {
            management_addr,
            voice_addr,
            username,
        })) => {
            assert_eq!(management_addr, "10.1.1.1:9001");
            assert_eq!(voice_addr, "10.1.1.1:9002");
            assert_eq!(username, "dave");
        }
        other => panic!("unexpected {:?}", other),
    }
}

#[test]
fn login_page_shows_and_clears_error() {
    let mut page = LoginPage::new(&config("srv", "eve"));
    assert!(page.is_form_filled());
    assert_eq!(page.voice_url(), "srv");
    assert_eq!(page.username(), "eve");
    page.update(&Message::VoiceCommandResult(VoiceCommandResult::Connect(Err(
        "connection refused".to_string(),
    ))));
    assert_eq!(page.login_error(), "connection refused");
    page.update(&Message::LoginPage(LoginPageMessage::UsernameChanged("".to_string())));
    assert_eq!(page.login_error(), "");
    assert!(!page.is_form_filled());
}

#[test]
fn chat_message_time_of_day() {
    let m = ChatMessage::new("al".to_string(), "yo".to_string(), 1_700_000_000_123);
    assert_eq!(m.username, "al");
    assert_eq!(m.message, "yo");
    assert!(is_clock_text(&m.time));
    let far = ChatMessage::new("al".to_string(), "x".to_string(), u64::MAX);
    assert!(is_clock_text(&far.time));
}

#[test]
fn room_participants_and_voice() {
    let mut room = RoomPage::new(SettingsPage::new(String::new(), 0, 0, String::new(), 0));
    room.update(&Message::ServerEventReceived(ClientEvent::ParticipantsList {
        user_id: 2,
        participants: vec![participant(1, "ann", true), participant(2, "me", false)],
    }));
    assert_eq!(room.user_id(), 2);
    assert!(!room.is_in_voice());
    let acts = room.update(&Message::RoomPage(RoomPageMessage::JoinLeaveToggle));
    assert!(matches!(
        acts.as_slice(),
        [AppAction::Dispatch(Message::ExecuteVoiceCommand(VoiceCommand::JoinVoiceChannel))]
    ));
    room.update(&Message::VoiceCommandResult(VoiceCommandResult::JoinVoiceChannel(Ok(()))));
    assert!(room.is_in_voice());
    let acts = room.update(&Message::RoomPage(RoomPageMessage::JoinLeaveToggle));
    assert!(matches!(
        acts.as_slice(),
        [AppAction::Dispatch(Message::ExecuteVoiceCommand(VoiceCommand::LeaveVoiceChannel))]
    ));
    room.update(&Message::ServerEventReceived(ClientEvent::UserJoinedServer {
        user_id: 3,
        username: "bo".to_string(),
    }));
    assert_eq!(room.participant(3).map(|p| p.in_voice), Some(false));
    room.update(&Message::ServerEventReceived(ClientEvent::UserJoinedVoice { user_id: 3 }));
    assert_eq!(room.participant(3).map(|p| p.in_voice), Some(true));
    room.update(&Message::ServerEventReceived(ClientEvent::UserLeftVoice { user_id: 3 }));
    assert_eq!(room.participant(3).map(|p| p.in_voice), Some(false));
    room.update(&Message::ServerEventReceived(ClientEvent::UserLeftServer { user_id: 3 }));
    assert!(room.participant(3).is_none());
    room.update(&Message::VoiceCommandResult(VoiceCommandResult::LeaveVoiceChannel(Ok(()))));
    assert!(!room.is_in_voice());
}

#[test]
fn room_chat_input_and_history() {
    let mut room = RoomPage::new(SettingsPage::new(String::new(), 0, 0, String::new(), 0));
    room.update(&Message::ServerEventReceived(ClientEvent::ParticipantsList {
        user_id: 1,
        participants: vec![participant(1, "me", false), participant(5, "kim", false)],
    }));
    room.update(&Message::RoomPage(RoomPageMessage::ChatMessageChanged("hello".to_string())));
    assert_eq!(room.chat_message(), "hello");
    room.update(&Message::RoomPage(RoomPageMessage::ChatMessageChanged("x".repeat(2001))));
    assert_eq!(room.chat_message(), "hello");
    room.update(&Message::RoomPage(RoomPageMessage::ChatMessageChanged("é".repeat(1001))));
    assert_eq!(room.chat_message(), "hello");
    room.update(&Message::RoomPage(RoomPageMessage::ChatMessageChanged("y".repeat(2000))));
    assert_eq!(room.chat_message().len(), 2000);
    let acts = room.update(&Message::RoomPage(RoomPageMessage::ChatMessageSubmitted));
    match acts.as_slice() {
        [AppAction::Dispatch(Message::ExecuteVoiceCommand(VoiceCommand::SendChatMessage(m)))] => {
            assert_eq!(m.len(), 2000)
        }
        other => panic!("unexpected {:?}", other),
    }
    assert_eq!(room.chat_message(), "");
    assert!(room.update(&Message::RoomPage(RoomPageMessage::ChatMessageSubmitted)).is_empty());
    let acts = room.update(&Message::ServerEventReceived(ClientEvent::UserSentMessage {
        user_id: 5,
        timestamp: 1000,
        message: "hey".to_string(),
    }));
    assert!(matches!(acts.as_slice(), [AppAction::ScrollChatToEnd]));
    let entry = room.chat_entry(1000).expect("kept");
    assert_eq!(entry.username, "kim");
    assert_eq!(entry.message, "hey");
    assert!(is_clock_text(&entry.time));
    let acts = room.update(&Message::ServerEventReceived(ClientEvent::UserSentMessage {
        user_id: 99,
        timestamp: 2000,
        message: "ghost".to_string(),
    }));
    assert!(acts.is_empty());
    assert!(room.chat_entry(2000).is_none());
}

#[test]
fn room_toggles() {
    let mut room = RoomPage::new(SettingsPage::new(String::new(), 0, 0, String::new(), 0));
    room.update(&Message::RoomPage(RoomPageMessage::MuteToggle));
    assert!(room.is_muted());
    room.update(&Message::RoomPage(RoomPageMessage::MuteToggle));
    assert!(!room.is_muted());
    room.update(&Message::KeyPressed(Key::Escape));
    assert!(!room.shows_settings());
    room.update(&Message::RoomPage(RoomPageMessage::SettingsToggle));
    assert!(room.shows_settings());
    room.update(&Message::KeyPressed(Key::Other));
    assert!(room.shows_settings());
    room.update(&Message::KeyPressed(Key::Escape));
    assert!(!room.shows_settings());
}

#[test]
fn settings_page_state() {
    let mut page = SettingsPage::new("in0".to_string(), 10, 80, "out0".to_string(), 90);
    let acts = page.update(&Message::SettingsPage(SettingsPageMessage::SelectInputDevice(
        "in1".to_string(),
    )));
    assert!(matches!(acts.as_slice(), [AppAction::StopInputStream, AppAction::StartInputStream]));
    assert_eq!(page.selected_input_device(), "in1");
    page.update(&Message::SettingsPage(SettingsPageMessage::SelectOutputDevice("out2".to_string())));
    assert_eq!(page.selected_output_device(), "out2");
    page.update(&Message::SettingsPage(SettingsPageMessage::InputSensitivityChanged(33)));
    page.update(&Message::SettingsPage(SettingsPageMessage::InputVolumeChanged(44)));
    page.update(&Message::SettingsPage(SettingsPageMessage::OutputVolumeChanged(55)));
    assert_eq!(page.input_sensitivity(), 33);
    assert_eq!(page.input_volume(), 44);
    assert_eq!(page.output_volume(), 55);
    let acts = page.update(&Message::KeyPressed(Key::Escape));
    assert!(matches!(acts.as_slice(), [AppAction::Dispatch(Message::SwitchPage(PageType::Room))]));
    assert!(matches!(page.on_open().as_slice(), [AppAction::StartInputStream]));
    assert!(matches!(page.on_close().as_slice(), [AppAction::StopInputStream]));
}

#[test]
fn settings_radio_hover() {
    let mut page = SettingsPage::new(String::new(), 0, 0, String::new(), 0);
    let g = "input".to_string();
    page.update(&Message::SettingsPage(SettingsPageMessage::RadioHoverEnter(g.clone(), 2)));
    assert_eq!(page.hovered_option(&g), Some(2));
    page.update(&Message::SettingsPage(SettingsPageMessage::RadioHoverEnter(g.clone(), 3)));
    assert_eq!(page.hovered_option(&g), Some(3));
    page.update(&Message::SettingsPage(SettingsPageMessage::RadioHoverLeave(g.clone(), 2)));
    assert_eq!(page.hovered_option(&g), Some(3));
    page.update(&Message::SettingsPage(SettingsPageMessage::RadioHoverLeave(g.clone(), 3)));
    assert_eq!(page.hovered_option(&g), None);
    assert_eq!(page.hovered_option(&"output".to_string()), None);
}

#[test]
fn audio_state_follows_voice_membership() {
    let mut a = AudioManagerState::new();
    assert!(matches!(a.init().as_slice(), [AppAction::InitNotificationPlayer]));
    a.update(&Message::VoiceCommandResult(VoiceCommandResult::Connect(Ok((
        7,
        "h".to_string(),
        "me".to_string(),
    )))));
    assert_eq!(a.user_id(), 7);
    let acts = a.update(&Message::ServerEventReceived(ClientEvent::UserJoinedVoice { user_id: 8 }));
    assert!(acts.is_empty());
    a.update(&Message::ServerEventReceived(ClientEvent::UserJoinedVoice { user_id: 9 }));
    let acts = a.update(&Message::VoiceCommandResult(VoiceCommandResult::JoinVoiceChannel(Ok(()))));
    assert!(matches!(acts[0], AppAction::PlayNotification(Notification::JoinVoice)));
    assert!(matches!(acts[1], AppAction::StartRecording));
    let mut created: Vec<u64> = acts[2..]
        .iter()
        .map(|a| match a {
            AppAction::CreateOutputStream(u) => *u,
            other => panic!("unexpected {:?}", other),
        })
        .collect();
    created.sort();
    assert_eq!(created, vec![8, 9]);
    assert!(a.is_in_voice(7));
    let acts = a.update(&Message::ServerEventReceived(ClientEvent::UserLeftVoice { user_id: 8 }));
    assert!(matches!(
        acts.as_slice(),
        [AppAction::PlayNotification(Notification::LeaveVoice), AppAction::RemoveOutputStream(8)]
    ));
    assert!(!a.is_in_voice(8));
    let acts = a.update(&Message::SettingsPage(SettingsPageMessage::SelectOutputDevice(
        "dev".to_string(),
    )));
    assert!(matches!(
        acts.as_slice(),
        [
            AppAction::InitNotificationPlayer,
            AppAction::PlayNotification(Notification::Unmute),
            AppAction::RemoveAllOutputStreams,
            AppAction::CreateOutputStream(9)
        ]
    ));
    let acts = a.update(&Message::MuteInput(true));
    assert!(matches!(
        acts.as_slice(),
        [AppAction::MuteInput, AppAction::PlayNotification(Notification::Mute)]
    ));
    let acts = a.update(&Message::VoiceCommandResult(VoiceCommandResult::LeaveVoiceChannel(Ok(()))));
    assert!(matches!(
        acts.as_slice(),
        [
            AppAction::PlayNotification(Notification::LeaveVoice),
            AppAction::StopRecording,
            AppAction::RemoveAllOutputStreams
        ]
    ));
    assert!(!a.is_in_voice(7));
}

#[test]
fn set_members_lists_each_once() {
    let mut s = std::collections::HashSet::new();
    for u in [5u64, 1, 9, 5] {
        s.insert(u);
    }
    let mut m = set_members(&s);
    m.sort();
    assert_eq!(m, vec![1, 5, 9]);
}

#[test]
fn config_state_dirty_tracking() {
    let mut c = ConfigState::new(config("a", "b"));
    assert!(!c.is_dirty());
    c.write_server(&"a".to_string(), &"b".to_string());
    assert!(!c.is_dirty());
    assert!(c.save_config_if_dirty().is_empty());
    c.update(&Message::VoiceCommandResult(VoiceCommandResult::Connect(Ok((
        1,
        "new-host".to_string(),
        "b".to_string(),
    )))));
    assert!(c.is_dirty());
    assert_eq!(c.config().server.address, "new-host");
    let acts = c.update(&Message::PeriodicConfigSave);
    match acts.as_slice() {
        [AppAction::SaveConfig(saved)] => assert_eq!(saved.server.address, "new-host"),
        other => panic!("unexpected {:?}", other),
    }
    assert!(!c.is_dirty());
    assert!(c.update(&Message::WindowCloseRequested).is_empty());
    c.save_failed();
    assert!(c.is_dirty());
    assert_eq!(c.update(&Message::WindowCloseRequested).len(), 1);
}

#[test]
fn voice_client_state_forwards() {
    let v = VoiceClientState::new();
    assert!(matches!(
        v.update(&Message::ExecuteVoiceCommand(VoiceCommand::Ping)).as_slice(),
        [AppAction::RunVoiceCommand(VoiceCommand::Ping)]
    ));
    assert!(matches!(
        v.update(&Message::MuteInput(false)).as_slice(),
        [AppAction::SendMuteState(false)]
    ));
    assert!(v.update(&Message::PeriodicConfigSave).is_empty());
}

#[test]
fn application_startup_and_pages() {
    let settings = SettingsPage::new(String::new(), 0, 100, String::new(), 100);
    let (mut app, acts) = Application::new(config("srv", "me"), settings);
    assert_eq!(app.current_page(), PageType::Login);
    assert!(matches!(acts[0], AppAction::InitNotificationPlayer));
    assert!(matches!(
        acts[1],
        AppAction::Dispatch(Message::ExecuteVoiceCommand(VoiceCommand::Connect { .. }))
    ));
    let idle = ClientStatus { in_voice_channel: false, users_in_voice: vec![] };
    let acts = app.update(
        &Message::VoiceCommandResult(VoiceCommandResult::Connect(Ok((
            3,
            "other".to_string(),
            "me".to_string(),
        )))),
        &idle,
    );
    assert!(matches!(acts[0], AppAction::Dispatch(Message::SwitchPage(PageType::Room))));
    assert_eq!(app.config().server.address, "other");
    let acts = app.update(&Message::SwitchPage(PageType::Settings), &idle);
    assert!(matches!(acts.as_slice(), [AppAction::StartInputStream]));
    assert_eq!(app.current_page(), PageType::Settings);
    let acts = app.update(&Message::SwitchPage(PageType::Room), &idle);
    assert!(matches!(acts.as_slice(), [AppAction::StopInputStream]));
    let acts = app.update(&Message::PeriodicConfigSave, &idle);
    assert!(matches!(acts.as_slice(), [AppAction::SaveConfig(_)]));
    let acts = app.update(&Message::WindowCloseRequested, &idle);
    assert!(matches!(acts.as_slice(), [AppAction::CloseWindow]));
    app.config_save_failed();
    let acts = app.update(&Message::WindowCloseRequested, &idle);
    assert!(matches!(acts.as_slice(), [AppAction::SaveConfig(_), AppAction::CloseWindow]));
}

#[test]
fn application_voice_actions() {
    let settings = SettingsPage::new(String::new(), 0, 100, String::new(), 100);
    let (mut app, acts) = Application::new(AppConfig::default(), settings);
    assert_eq!(acts.len(), 1);
    let in_voice = ClientStatus { in_voice_channel: true, users_in_voice: vec![4, 6] };
    let acts = app.update(
        &Message::VoiceCommandResult(VoiceCommandResult::JoinVoiceChannel(Ok(()))),
        &in_voice,
    );
    assert!(matches!(
        acts.as_slice(),
        [
            AppAction::PlayNotification(Notification::JoinVoice),
            AppAction::StartRecording,
            AppAction::CreateOutputStream(4),
            AppAction::CreateOutputStream(6)
        ]
    ));
    let acts = app.update(&Message::MuteInput(true), &in_voice);
    assert!(matches!(
        acts.as_slice(),
        [
            AppAction::MuteInput,
            AppAction::PlayNotification(Notification::Mute),
            AppAction::SendMuteState(true)
        ]
    ));
    let acts = app.update(&Message::ExecuteVoiceCommand(VoiceCommand::LeaveVoiceChannel), &in_voice);
    assert!(matches!(acts.as_slice(), [AppAction::RunVoiceCommand(VoiceCommand::LeaveVoiceChannel)]));
    let acts = app.update(
        &Message::SettingsPage(SettingsPageMessage::SelectInputDevice("mic".to_string())),
        &in_voice,
    );
    assert!(matches!(
        acts.as_slice(),
        [
            AppAction::UseInputDevice(_),
            AppAction::StopInputStream,
            AppAction::StartInputStream,
            AppAction::StopInputStream,
            AppAction::StartInputStream
        ]
    ));
    assert_eq!(app.room().settings().selected_input_device(), "mic");
    assert_eq!(app.settings().selected_input_device(), "mic");
    assert!(matches!(
        app.input_device_ready(&in_voice).as_slice(),
        [AppAction::StopRecording, AppAction::StartRecording]
    ));
    assert_eq!(app.output_device_ready(&in_voice).len(), 5);
    let idle = ClientStatus { in_voice_channel: false, users_in_voice: vec![] };
    assert!(app.input_device_ready(&idle).is_empty());
    let acts = app.update(&Message::ServerEventReceived(ClientEvent::UserJoinedVoice { user_id: 4 }), &idle);
    assert!(acts.is_empty());
}

#[test]
fn icon_glyphs() {
    assert_eq!(Icons::gear_six_fill().codepoint, '\u{E272}');
    assert_eq!(Icons::microphone_fill().font, IconFont::Fill);
    assert_eq!(Icons::arrow_left_solid().font, IconFont::Regular);
    assert_eq!(IconFont::Fill.family(), "Phosphor-Fill");
    assert_eq!(IconFont::Regular.family(), "Phosphor");
    assert_eq!(Notification::LeaveVoice.name(), "leave_voice");
    assert_ne!(ViewType::Login, ViewType::Room);
}

#[test]
fn room_view_model() {
    let mut room = RoomPage::new(SettingsPage::new(String::new(), 0, 0, String::new(), 0));
    room.update(&Message::ServerEventReceived(ClientEvent::ParticipantsList {
        user_id: 1,
        participants: vec![
            participant(1, "me", false),
            participant(2, "ann", true),
            participant(3, "bo", true),
        ],
    }));
    assert_eq!(room.voice_button_label(), "Join voice");
    assert!(!room.shows_mute_slider());
    let mut in_voice: Vec<u64> = room.members(true).iter().map(|p| p.user_id).collect();
    in_voice.sort();
    assert_eq!(in_voice, vec![2, 3]);
    let in_chat: Vec<String> = room.members(false).iter().map(|p| p.username.clone()).collect();
    assert_eq!(in_chat, vec!["me".to_string()]);
    room.update(&Message::VoiceCommandResult(VoiceCommandResult::JoinVoiceChannel(Ok(()))));
    assert_eq!(room.voice_button_label(), "Leave voice");
    assert!(room.shows_mute_slider());
    assert!(!room.can_send_chat());
    room.update(&Message::RoomPage(RoomPageMessage::ChatMessageChanged("hi".to_string())));
    assert!(room.can_send_chat());
    for (ts, text) in [(30u64, "third"), (10, "first"), (20, "second")] {
        room.update(&Message::ServerEventReceived(ClientEvent::UserSentMessage {
            user_id: 2,
            timestamp: ts,
            message: text.to_string(),
        }));
    }
    let lines: Vec<String> = room.chat_lines().iter().map(|c| c.message.clone()).collect();
    assert_eq!(lines, vec!["first", "second", "third"]);
    let look = mute_slider_look(true);
    assert_eq!(look.knob, KnobSide::Left);
    assert_eq!(look.muted_icon, Tone::Alert);
    assert_eq!(mute_slider_look(false).unmuted_icon, Tone::Success);
    assert_eq!(member_icon(true).1, Tone::Success);
    assert_eq!(member_icon(false).0.codepoint, '\u{E176}');
    assert_eq!(section_title(true), "IN VOICE");
    assert_eq!(section_title(false), "IN CHAT");
}

#[test]
fn settings_radio_view_model() {
    let mut page = SettingsPage::new(String::new(), 0, 0, String::new(), 0);
    let group = "output_device".to_string();
    page.update(&Message::SettingsPage(SettingsPageMessage::RadioHoverEnter(group.clone(), 1)));
    let keys = vec!["a".to_string(), "b".to_string(), "c".to_string()];
    let opts = page.radio_options(&group, &keys, &"c".to_string());
    assert_eq!(opts.len(), 3);
    assert_eq!(opts[0].position, RadioPosition::Top);
    assert_eq!(opts[1].position, RadioPosition::Middle);
    assert_eq!(opts[2].position, RadioPosition::Bottom);
    assert!(opts[1].hovered && !opts[0].hovered && !opts[2].hovered);
    assert!(opts[2].selected && !opts[0].selected);
    assert!(opts[0].divider_after && opts[1].divider_after && !opts[2].divider_after);
    let single = page.radio_options(&"input_device".to_string(), &vec!["x".to_string()], &"y".to_string());
    assert_eq!(single[0].position, RadioPosition::Top);
    assert!(!single[0].divider_after && !single[0].selected && !single[0].hovered);
}

#[test]
fn best_stream_config_choice() {
    let range = |channels: u16, min: u32, max: u32, f: SampleFormat| StreamConfigRange {
        channels,
        min_sample_rate: min,
        max_sample_rate: max,
        sample_format: f,
    };
    assert_eq!(find_best_stream_config(&vec![]), Err("No configurations found".to_string()));
    let cs = vec![
        range(2, 8000, 44100, SampleFormat::F32),
        range(1, 8000, 96000, SampleFormat::I16),
        range(2, 8000, 96000, SampleFormat::F32),
    ];
    assert_eq!(
        find_best_stream_config(&cs),
        Ok(StreamChoice { sample_rate: 48000, sample_format: SampleFormat::F32, channels: 2 })
    );
    let cs = vec![range(2, 8000, 44100, SampleFormat::F32), range(1, 8000, 96000, SampleFormat::I16)];
    assert_eq!(
        find_best_stream_config(&cs),
        Ok(StreamChoice { sample_rate: 48000, sample_format: SampleFormat::I16, channels: 1 })
    );
    let cs = vec![range(4, 8000, 44100, SampleFormat::I32), range(2, 8000, 44100, SampleFormat::F32)];
    assert_eq!(
        find_best_stream_config(&cs),
        Ok(StreamChoice { sample_rate: 44100, sample_format: SampleFormat::F32, channels: 2 })
    );
    let cs = vec![range(6, 8000, 32000, SampleFormat::I24), range(2, 8000, 44100, SampleFormat::U8)];
    assert_eq!(
        find_best_stream_config(&cs),
        Ok(StreamChoice { sample_rate: 32000, sample_format: SampleFormat::I24, channels: 6 })
    );
}

#[test]
fn notification_played_in_chunks() {
    let mut p = NotificationPlayback::new(480);
    assert_eq!(p.next_chunk(), Chunk::Silence(480));
    p.play(1000);
    assert_eq!(p.next_chunk(), Chunk::Samples { start: 0, end: 480 });
    assert_eq!(p.next_chunk(), Chunk::Samples { start: 480, end: 960 });
    assert_eq!(p.next_chunk(), Chunk::Samples { start: 960, end: 1000 });
    assert_eq!(p.next_chunk(), Chunk::Silence(480));
    assert_eq!(p.next_chunk(), Chunk::Silence(480));
}

#[test]
fn notification_last_wins() {
    let mut p = NotificationPlayback::new(100);
    p.play(1000);
    assert_eq!(p.next_chunk(), Chunk::Samples { start: 0, end: 100 });
    p.play(150);
    assert_eq!(p.next_chunk(), Chunk::Samples { start: 0, end: 100 });
    assert_eq!(p.next_chunk(), Chunk::Samples { start: 100, end: 150 });
    assert_eq!(p.next_chunk(), Chunk::Silence(100));
}

#[test]
fn notification_empty_sound_is_silence() {
    let mut p = NotificationPlayback::new(100);
    p.play(0);
    assert_eq!(p.next_chunk(), Chunk::Silence(100));
    let mut q = NotificationPlayback::new(0);
    q.play(5);
    assert_eq!(q.next_chunk(), Chunk::Samples { start: 0, end: 0 });
}

#[test]
fn room_forwards_settings_messages() {
    let mut room = RoomPage::new(SettingsPage::new("in0".to_string(), 10, 80, "out0".to_string(), 90));
    let acts = room.update(&Message::SettingsPage(SettingsPageMessage::SelectInputDevice(
        "mic".to_string(),
    )));
    assert!(matches!(acts.as_slice(), [AppAction::StopInputStream, AppAction::StartInputStream]));
    assert_eq!(room.settings().selected_input_device(), "mic");
    room.update(&Message::SettingsPage(SettingsPageMessage::OutputVolumeChanged(40)));
    assert_eq!(room.settings().output_volume(), 40);
    assert_eq!(room.settings().input_volume(), 80);
}
