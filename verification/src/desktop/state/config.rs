//! The configuration handler: it holds the current configuration, notes
//! when a message changes it, and asks for it to be written to disk when
//! a save is due and there is something to save.
use crate::frontend::application::{actions_view, AppAction, AppActionView, Message, MessageView};
use crate::frontend::config::{AppConfig, AppConfigView, ServerConfig, ServerConfigView};
use crate::frontend::state::voice_client::{VoiceCommandResult, VoiceCommandResultView};
use vstd::prelude::*;

verus! {

pub struct ConfigState {
    config: AppConfig,
    config_dirty: bool,
}

/// The state of the configuration handler: the configuration and whether
/// it holds changes not yet written to disk.
pub struct ConfigView {
    pub config: AppConfigView,
    pub dirty: bool,
}

impl View for ConfigState {
    type V = ConfigView;

    closed spec fn view(&self) -> ConfigView {
        ConfigView { config: self.config@, dirty: self.config_dirty }
    }
}

/// Writing `new`: a configuration that differs from the current one
/// replaces it and marks it unsaved; an equal one changes nothing.
pub open spec fn written(s: ConfigView, new: AppConfigView) -> ConfigView {
    if new == s.config {
        s
    } else {
        ConfigView { config: new, dirty: true }
    }
}

/// The configuration with the server settings replaced.
pub open spec fn with_server(c: AppConfigView, address: Seq<char>, username: Seq<char>) -> AppConfigView {
    AppConfigView { server: ServerConfigView { address, username }, ..c }
}

/// A save that is due: the configuration is handed out to be written when
/// it holds unsaved changes, and is then taken as saved.
pub open spec fn save_due(s: ConfigView) -> (ConfigView, Seq<AppActionView>) {
    if s.dirty {
        (ConfigView { dirty: false, ..s }, seq![AppActionView::SaveConfig(s.config)])
    } else {
        (s, Seq::empty())
    }
}

/// How the configuration handler reacts to a message: a successful
/// connection records the server and name used; the periodic save and the
/// request to close the window save unsaved changes.
pub open spec fn config_step(s: ConfigView, m: MessageView) -> (ConfigView, Seq<AppActionView>) {
    match m {
        MessageView::VoiceCommandResult(
            VoiceCommandResultView::Connect(Ok((_, address, username))),
        ) => (written(s, with_server(s.config, address, username)), Seq::empty()),
        MessageView::PeriodicConfigSave => save_due(s),
        MessageView::WindowCloseRequested => save_due(s),
        _ => (s, Seq::empty()),
    }
}

/// Writing a configuration equal to the current one leaves the handler as
/// it was: nothing is marked unsaved.
pub proof fn lemma_unchanged_write_stays_clean(s: ConfigView, new: AppConfigView)
    requires
        new == s.config,
    ensures
        written(s, new) == s,
{
}

/// Once a save is due, nothing is left unsaved, and the configuration
/// handed out to be written is the current one exactly when there were
/// unsaved changes.
pub proof fn lemma_save_clears_dirty(s: ConfigView)
    ensures
        !save_due(s).0.dirty,
        save_due(s).0.config == s.config,
        s.dirty ==> save_due(s).1 == seq![AppActionView::SaveConfig(s.config)],
        !s.dirty ==> save_due(s).1 == Seq::<AppActionView>::empty(),
{
}

/// A connection that reports a different server or name than the stored
/// ones is recorded and marked unsaved; a save then hands out exactly that
/// configuration.
pub proof fn lemma_connection_recorded(s: ConfigView, id: u64, address: Seq<char>, username: Seq<char>)
    requires
        with_server(s.config, address, username) != s.config,
    ensures
        ({
            let after = config_step(
                s,
                MessageView::VoiceCommandResult(
                    VoiceCommandResultView::Connect(Ok((id, address, username))),
                ),
            ).0;
            &&& after.dirty
            &&& after.config.server.address == address
            &&& after.config.server.username == username
            &&& config_step(after, MessageView::PeriodicConfigSave).1 == seq![
                AppActionView::SaveConfig(after.config),
            ]
        }),
{
}

impl ConfigState {
    pub fn new(config: AppConfig) -> (s: Self)
        ensures
            s@.config == config@,
            !s@.dirty,
    {
        ConfigState { config, config_dirty: false }
    }

    pub fn config(&self) -> (c: &AppConfig)
        ensures
            c@ == self@.config,
    {
        &self.config
    }

    pub fn is_dirty(&self) -> (d: bool)
        ensures
            d == self@.dirty,
    {
        self.config_dirty
    }

    /// Replace the configuration by `new_config` if it differs, marking it
    /// unsaved.
    pub fn write_config(&mut self, new_config: AppConfig)
        ensures
            final(self)@ == written(old(self)@, new_config@),
    {
        if !self.config.same_as(&new_config) {
            self.config = new_config;
            self.config_dirty = true;
        }
    }

    /// Record the server and name of a connection.
    pub fn write_server(&mut self, address: &String, username: &String)
        ensures
            final(self)@ == written(old(self)@, with_server(old(self)@.config, address@, username@)),
    {
        let new_config = AppConfig {
            server: ServerConfig { address: address.clone(), username: username.clone() },
        };
        self.write_config(new_config);
    }

    /// The configuration to write, if it holds unsaved changes; it is then
    /// taken as saved.
    pub fn save_config_if_dirty(&mut self) -> (actions: Vec<AppAction>)
        ensures
            (final(self)@, actions_view(actions@)) == save_due(old(self)@),
    {
        let mut actions: Vec<AppAction> = Vec::new();
        if self.config_dirty {
            self.config_dirty = false;
            actions.push(AppAction::SaveConfig(self.config.snapshot()));
        }
        assert(actions_view(actions@) =~= save_due(old(self)@).1);
        actions
    }

    /// Writing the configuration failed: it holds unsaved changes again.
    pub fn save_failed(&mut self)
        ensures
            final(self)@ == (ConfigView { dirty: true, ..old(self)@ }),
    {
        self.config_dirty = true;
    }

    /// The handler's reaction to a message (see `config_step`): a connection
    /// is recorded, and a periodic save or the closing window writes unsaved
    /// changes.
    pub fn update(&mut self, message: &Message) -> (actions: Vec<AppAction>)
        ensures
            (final(self)@, actions_view(actions@)) == config_step(old(self)@, message@),
    {
        match message {
            Message::VoiceCommandResult(VoiceCommandResult::Connect(Ok((_, address, username)))) => {
                self.write_server(address, username);
                let actions: Vec<AppAction> = Vec::new();
                assert(actions_view(actions@) =~= Seq::<AppActionView>::empty());
                actions
            },
            Message::PeriodicConfigSave => self.save_config_if_dirty(),
            Message::WindowCloseRequested => self.save_config_if_dirty(),
            _ => {
                let actions: Vec<AppAction> = Vec::new();
                assert(actions_view(actions@) =~= Seq::<AppActionView>::empty());
                actions
            },
        }
    }
}

} // verus!
