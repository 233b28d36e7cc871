//! The audio side of the application: who is in the voice channel, and
//! which recordings, playback streams and notification sounds follow from
//! the messages.  The audio devices themselves are the front end's.
use crate::frontend::application::{
    actions_view,
    AppAction,
    AppActionView,
    Message,
    MessageView,
    Notification,
};
use crate::frontend::events::{ClientEvent, ClientEventView};
use crate::frontend::pages::settings::{SettingsPageMessage, SettingsPageMessageView};
use crate::frontend::state::voice_client::{VoiceCommandResult, VoiceCommandResultView};
use std::collections::HashSet;
use vstd::prelude::*;

verus! {

pub struct AudioManagerState {
    user_id: u64,
    users_in_voice: HashSet<u64>,
}

/// The state of the audio handler: this client's user id and the users in
/// the voice channel.
pub struct AudioView {
    pub user_id: u64,
    pub users_in_voice: Set<u64>,
}

impl View for AudioManagerState {
    type V = AudioView;

    closed spec fn view(&self) -> AudioView {
        AudioView { user_id: self.user_id, users_in_voice: self.users_in_voice@ }
    }
}

/// `order` lists each member of `users` once.
pub open spec fn listing(order: Seq<u64>, users: Set<u64>) -> bool {
    order.no_duplicates() && order.to_set() == users
}

/// A playback stream for each user of `order`, in that order.
pub open spec fn create_streams(order: Seq<u64>) -> Seq<AppActionView> {
    order.map_values(|u: u64| AppActionView::CreateOutputStream(u))
}

/// The users of `order` other than `me`.
pub open spec fn others(order: Seq<u64>, me: u64) -> Seq<u64> {
    order.filter(|u: u64| u != me)
}

/// The users of `order` that get a stream: all of them, or all but `skip`.
pub open spec fn stream_users(order: Seq<u64>, skip: Option<u64>) -> Seq<u64> {
    match skip {
        Some(me) => others(order, me),
        None => order,
    }
}

/// How the audio handler reacts to a message.  `order` is the order in
/// which the users in voice are visited where all of them are.
pub open spec fn audio_step(v: AudioView, m: MessageView, order: Seq<u64>) -> (
    AudioView,
    Seq<AppActionView>,
) {
    let me_in_voice = v.users_in_voice.contains(v.user_id);
    match m {
        MessageView::VoiceCommandResult(VoiceCommandResultView::Connect(Ok((id, _, _)))) => (
            AudioView { user_id: id, ..v },
            Seq::empty(),
        ),
        MessageView::VoiceCommandResult(VoiceCommandResultView::JoinVoiceChannel(Ok(()))) => (
            AudioView { users_in_voice: v.users_in_voice.insert(v.user_id), ..v },
            seq![
                AppActionView::PlayNotification(Notification::JoinVoice),
                AppActionView::StartRecording,
            ] + create_streams(order),
        ),
        MessageView::VoiceCommandResult(VoiceCommandResultView::LeaveVoiceChannel(Ok(()))) => (
            AudioView { users_in_voice: v.users_in_voice.remove(v.user_id), ..v },
            seq![
                AppActionView::PlayNotification(Notification::LeaveVoice),
                AppActionView::StopRecording,
                AppActionView::RemoveAllOutputStreams,
            ],
        ),
        MessageView::ServerEventReceived(ClientEventView::UserJoinedVoice { user_id }) => {
            let users = v.users_in_voice.insert(user_id);
            (
                AudioView { users_in_voice: users, ..v },
                if users.contains(v.user_id) {
                    seq![
                        AppActionView::PlayNotification(Notification::JoinVoice),
                        AppActionView::CreateOutputStream(user_id),
                    ]
                } else {
                    Seq::empty()
                },
            )
        },
        MessageView::ServerEventReceived(ClientEventView::UserLeftVoice { user_id }) => (
            AudioView { users_in_voice: v.users_in_voice.remove(user_id), ..v },
            if me_in_voice {
                seq![
                    AppActionView::PlayNotification(Notification::LeaveVoice),
                    AppActionView::RemoveOutputStream(user_id),
                ]
            } else {
                Seq::empty()
            },
        ),
        MessageView::SettingsPage(SettingsPageMessageView::SelectInputDevice(_)) => (
            v,
            if me_in_voice {
                seq![AppActionView::StopRecording, AppActionView::StartRecording]
            } else {
                Seq::empty()
            },
        ),
        MessageView::SettingsPage(SettingsPageMessageView::SelectOutputDevice(_)) => (
            v,
            seq![
                AppActionView::InitNotificationPlayer,
                AppActionView::PlayNotification(Notification::Unmute),
            ] + if me_in_voice {
                seq![AppActionView::RemoveAllOutputStreams] + create_streams(
                    others(order, v.user_id),
                )
            } else {
                Seq::empty()
            },
        ),
        MessageView::MuteInput(muted) => (
            v,
            if muted {
                seq![AppActionView::MuteInput, AppActionView::PlayNotification(Notification::Mute)]
            } else {
                seq![
                    AppActionView::UnmuteInput,
                    AppActionView::PlayNotification(Notification::Unmute),
                ]
            },
        ),
        _ => (v, Seq::empty()),
    }
}

/// On joining the voice channel, a playback stream is made for each user
/// already in it, exactly once; this client is then counted in voice.
pub proof fn lemma_join_streams_each_user_once(v: AudioView, order: Seq<u64>)
    requires
        listing(order, v.users_in_voice),
    ensures
        ({
            let (after, actions) = audio_step(
                v,
                MessageView::VoiceCommandResult(VoiceCommandResultView::JoinVoiceChannel(Ok(()))),
                order,
            );
            &&& after.users_in_voice.contains(v.user_id)
            &&& forall|u: u64|
                v.users_in_voice.contains(u) <==> actions.contains(
                    AppActionView::CreateOutputStream(u),
                )
            &&& actions.subrange(2, actions.len() as int).no_duplicates()
        }),
{
    let actions = audio_step(
        v,
        MessageView::VoiceCommandResult(VoiceCommandResultView::JoinVoiceChannel(Ok(()))),
        order,
    ).1;
    let streams = create_streams(order);
    assert(actions.subrange(2, actions.len() as int) =~= streams);
    assert forall|u: u64|
        v.users_in_voice.contains(u) <==> actions.contains(AppActionView::CreateOutputStream(u)) by {
        if v.users_in_voice.contains(u) {
            assert(order.to_set().contains(u));
            let i = choose|i: int| 0 <= i < order.len() && order[i] == u;
            assert(actions[i + 2] == AppActionView::CreateOutputStream(u));
        }
        if actions.contains(AppActionView::CreateOutputStream(u)) {
            let i = choose|i: int|
                0 <= i < actions.len() && actions[i] == AppActionView::CreateOutputStream(u);
            assert(i >= 2);
            assert(streams[i - 2] == AppActionView::CreateOutputStream(order[i - 2]));
            assert(order.contains(order[i - 2]));
        }
    }
    assert forall|a: int, b: int| 0 <= a < b < streams.len() implies streams[a] != streams[b] by {
        assert(order[a] != order[b]);
    }
}

/// Leaving the voice channel stops recording and all playback, and this
/// client is no longer counted in voice.
pub proof fn lemma_leave_stops_audio(v: AudioView, order: Seq<u64>)
    ensures
        ({
            let (after, actions) = audio_step(
                v,
                MessageView::VoiceCommandResult(VoiceCommandResultView::LeaveVoiceChannel(Ok(()))),
                order,
            );
            &&& !after.users_in_voice.contains(v.user_id)
            &&& actions.contains(AppActionView::StopRecording)
            &&& actions.contains(AppActionView::RemoveAllOutputStreams)
        }),
{
    let actions = audio_step(
        v,
        MessageView::VoiceCommandResult(VoiceCommandResultView::LeaveVoiceChannel(Ok(()))),
        order,
    ).1;
    assert(actions[1] == AppActionView::StopRecording);
    assert(actions[2] == AppActionView::RemoveAllOutputStreams);
}

/// Streams for others follow this client: another user joining or leaving
/// makes or drops their playback stream only while this client is in
/// voice.
pub proof fn lemma_streams_follow_membership(v: AudioView, u: u64, order: Seq<u64>)
    requires
        u != v.user_id,
    ensures
        audio_step(
            v,
            MessageView::ServerEventReceived(ClientEventView::UserJoinedVoice { user_id: u }),
            order,
        ).1.contains(AppActionView::CreateOutputStream(u)) <==> v.users_in_voice.contains(
            v.user_id,
        ),
        audio_step(
            v,
            MessageView::ServerEventReceived(ClientEventView::UserLeftVoice { user_id: u }),
            order,
        ).1.contains(AppActionView::RemoveOutputStream(u)) <==> v.users_in_voice.contains(
            v.user_id,
        ),
{
    let joined = audio_step(
        v,
        MessageView::ServerEventReceived(ClientEventView::UserJoinedVoice { user_id: u }),
        order,
    ).1;
    let left = audio_step(
        v,
        MessageView::ServerEventReceived(ClientEventView::UserLeftVoice { user_id: u }),
        order,
    ).1;
    if v.users_in_voice.contains(v.user_id) {
        assert(joined[1] == AppActionView::CreateOutputStream(u));
        assert(left[1] == AppActionView::RemoveOutputStream(u));
    }
}

/// The members of a set of user ids, each once, in the set's own order.
pub fn set_members(users: &HashSet<u64>) -> (members: Vec<u64>)
    ensures
        listing(members@, users@),
{
    let ghost set = users@;
    let mut members: Vec<u64> = Vec::new();
    for u in it: users.iter()
        invariant
            set == users@,
            it.seq().unref().to_set() == set,
            it.seq().unref().no_duplicates(),
            members@.len() == it.index(),
            forall|i: int| 0 <= i < it.index() ==> members@[i] == *it.seq()[i],
            forall|i: int| 0 <= i < members@.len() ==> set.contains(#[trigger] members@[i]),
            members@.no_duplicates(),
            forall|x: u64| #[trigger]
                set.contains(x) ==> members@.contains(x) || exists|j: int|
                    it.index() <= j < it.seq().len() && *it.seq()[j] == x,
        ensures
            members@.no_duplicates(),
            forall|i: int| 0 <= i < members@.len() ==> set.contains(#[trigger] members@[i]),
            forall|x: u64| #[trigger] set.contains(x) ==> members@.contains(x),
    {
        let ghost s = it.seq().unref();
        let ghost idx = it.index();
        let ghost old_members = members@;
        proof {
            assert(s[idx] == *u);
            assert(s.contains(s[idx]));
            assert(s.to_set().contains(*u));
            assert forall|i: int| 0 <= i < old_members.len() implies old_members[i] != *u by {
                assert(s[i] == old_members[i]);
            }
        }
        members.push(*u);
        proof {
            assert(members@.last() == *u);
            assert forall|x: u64| #[trigger]
                set.contains(x) implies members@.contains(x) || exists|j: int|
                    idx + 1 <= j < s.len() && s[j] == x by {
                if !old_members.contains(x) {
                    let j = choose|j: int| idx <= j < s.len() && s[j] == x;
                    if j == idx {
                        assert(members@[idx] == x);
                    }
                } else {
                    let i = choose|i: int| 0 <= i < old_members.len() && old_members[i] == x;
                    assert(members@[i] == x);
                }
            }
        }
    }
    assert(members@.to_set() =~= set) by {
        assert forall|x: u64| members@.to_set().contains(x) implies set.contains(x) by {
            let i = choose|i: int| 0 <= i < members@.len() && members@[i] == x;
        }
    }
    members
}

impl AudioManagerState {
    pub fn new() -> (s: Self)
        ensures
            s@.user_id == 0,
            s@.users_in_voice == Set::<u64>::empty(),
    {
        AudioManagerState { user_id: 0, users_in_voice: HashSet::new() }
    }

    pub fn user_id(&self) -> (id: u64)
        ensures
            id == self@.user_id,
    {
        self.user_id
    }

    /// Whether `user_id` is counted in the voice channel.
    pub fn is_in_voice(&self, user_id: u64) -> (b: bool)
        ensures
            b == self@.users_in_voice.contains(user_id),
    {
        self.users_in_voice.contains(&user_id)
    }

    /// The actions that prepare the audio side when the application starts.
    pub fn init(&mut self) -> (actions: Vec<AppAction>)
        ensures
            final(self)@ == old(self)@,
            actions_view(actions@) == seq![AppActionView::InitNotificationPlayer],
    {
        let actions = vec![AppAction::InitNotificationPlayer];
        assert(actions_view(actions@) =~= seq![AppActionView::InitNotificationPlayer]);
        actions
    }

    /// Push a playback stream for each user of `order` but `skip`, when
    /// `skip` is given.
    fn push_streams(actions: &mut Vec<AppAction>, order: &Vec<u64>, skip: Option<u64>)
        ensures
            actions_view(final(actions)@) == actions_view(old(actions)@) + create_streams(
                stream_users(order@, skip),
            ),
    {
        let ghost start = actions_view(actions@);
        let mut i: usize = 0;
        assert(actions_view(actions@) =~= start + create_streams(
            stream_users(order@.take(0), skip),
        ));
        while i < order.len()
            invariant
                i <= order@.len(),
                actions_view(actions@) == start + create_streams(
                    stream_users(order@.take(i as int), skip),
                ),
            decreases order.len() - i,
        {
            let u = order[i];
            assert(order@.take(i + 1).drop_last() =~= order@.take(i as int));
            assert(order@.take(i + 1).last() == u);
            let keep = match skip {
                Some(me) => u != me,
                None => true,
            };
            proof {
                reveal_with_fuel(Seq::filter, 1);
                let t = order@.take(i + 1);
                match skip {
                    Some(me) => {
                        assert(others(t, me) == if u != me {
                            others(order@.take(i as int), me).push(u)
                        } else {
                            others(order@.take(i as int), me)
                        });
                    },
                    None => {},
                }
            }
            let ghost before = actions_view(actions@);
            if keep {
                actions.push(AppAction::CreateOutputStream(u));
                assert(actions_view(actions@) =~= before.push(AppActionView::CreateOutputStream(u)));
            }
            assert(actions_view(actions@) =~= start + create_streams(
                stream_users(order@.take(i + 1), skip),
            ));
            i = i + 1;
        }
        assert(order@.take(order@.len() as int) =~= order@);
    }

    /// The handler's reaction to a message (see `audio_step`); the users in
    /// voice are taken in the order their set hands them out.
    pub fn update(&mut self, message: &Message) -> (actions: Vec<AppAction>)
        ensures
            exists|order: Seq<u64>|
                listing(order, old(self)@.users_in_voice) && (
                final(self)@,
                actions_view(actions@),
            ) == audio_step(old(self)@, message@, order),
    {
        let members = set_members(&self.users_in_voice);
        let me_in_voice = self.users_in_voice.contains(&self.user_id);
        let mut actions: Vec<AppAction> = Vec::new();
        match message {
            Message::VoiceCommandResult(VoiceCommandResult::Connect(Ok((user_id, _, _)))) => {
                self.user_id = *user_id;
            },
            Message::VoiceCommandResult(VoiceCommandResult::JoinVoiceChannel(Ok(()))) => {
                actions.push(AppAction::PlayNotification(Notification::JoinVoice));
                actions.push(AppAction::StartRecording);
                Self::push_streams(&mut actions, &members, None);
                self.users_in_voice.insert(self.user_id);
            },
            Message::VoiceCommandResult(VoiceCommandResult::LeaveVoiceChannel(Ok(()))) => {
                actions.push(AppAction::PlayNotification(Notification::LeaveVoice));
                actions.push(AppAction::StopRecording);
                actions.push(AppAction::RemoveAllOutputStreams);
                self.users_in_voice.remove(&self.user_id);
            },
            Message::ServerEventReceived(ClientEvent::UserJoinedVoice { user_id }) => {
                self.users_in_voice.insert(*user_id);
                if self.users_in_voice.contains(&self.user_id) {
                    actions.push(AppAction::PlayNotification(Notification::JoinVoice));
                    actions.push(AppAction::CreateOutputStream(*user_id));
                }
            },
            Message::ServerEventReceived(ClientEvent::UserLeftVoice { user_id }) => {
                if me_in_voice {
                    actions.push(AppAction::PlayNotification(Notification::LeaveVoice));
                    actions.push(AppAction::RemoveOutputStream(*user_id));
                }
                self.users_in_voice.remove(user_id);
            },
            Message::SettingsPage(SettingsPageMessage::SelectInputDevice(_)) => {
                if me_in_voice {
                    actions.push(AppAction::StopRecording);
                    actions.push(AppAction::StartRecording);
                }
            },
            Message::SettingsPage(SettingsPageMessage::SelectOutputDevice(_)) => {
                actions.push(AppAction::InitNotificationPlayer);
                actions.push(AppAction::PlayNotification(Notification::Unmute));
                if me_in_voice {
                    actions.push(AppAction::RemoveAllOutputStreams);
                    Self::push_streams(&mut actions, &members, Some(self.user_id));
                }
            },
            Message::MuteInput(muted) => {
                if *muted {
                    actions.push(AppAction::MuteInput);
                    actions.push(AppAction::PlayNotification(Notification::Mute));
                } else {
                    actions.push(AppAction::UnmuteInput);
                    actions.push(AppAction::PlayNotification(Notification::Unmute));
                }
            },
            _ => {},
        }
        assert(actions_view(actions@) =~= audio_step(old(self)@, message@, members@).1);
        assert(listing(members@, old(self)@.users_in_voice));
        actions
    }
}

} // verus!
