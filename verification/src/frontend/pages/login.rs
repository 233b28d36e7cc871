//! The login page: the server address and user name fields, and the error
//! shown when connecting fails.
use crate::frontend::application::{
    actions_view,
    connect_command,
    connect_to,
    AppAction,
    AppActionView,
    Message,
    MessageView,
};
use crate::frontend::config::AppConfig;
use crate::frontend::state::voice_client::{VoiceCommandResult, VoiceCommandResultView};
use vstd::prelude::*;

verus! {

pub struct LoginPage {
    voice_url: String,
    username: String,
    form_filled: bool,
    login_error: String,
}

#[derive(Debug, Clone)]
pub enum LoginPageMessage {
    VoiceUrlChanged(String),
    UsernameChanged(String),
    LoginSubmitted,
}

pub enum LoginPageMessageView {
    VoiceUrlChanged(Seq<char>),
    UsernameChanged(Seq<char>),
    LoginSubmitted,
}

impl View for LoginPageMessage {
    type V = LoginPageMessageView;

    open spec fn view(&self) -> LoginPageMessageView {
        match self {
            LoginPageMessage::VoiceUrlChanged(s) => LoginPageMessageView::VoiceUrlChanged(s@),
            LoginPageMessage::UsernameChanged(s) => LoginPageMessageView::UsernameChanged(s@),
            LoginPageMessage::LoginSubmitted => LoginPageMessageView::LoginSubmitted,
        }
    }
}

/// The state of the login page.
pub struct LoginView {
    pub voice_url: Seq<char>,
    pub username: Seq<char>,
    pub form_filled: bool,
    pub login_error: Seq<char>,
}

impl View for LoginPage {
    type V = LoginView;

    closed spec fn view(&self) -> LoginView {
        LoginView {
            voice_url: self.voice_url@,
            username: self.username@,
            form_filled: self.form_filled,
            login_error: self.login_error@,
        }
    }
}

/// Both fields hold text.
pub open spec fn form_complete(v: LoginView) -> bool {
    v.username.len() > 0 && v.voice_url.len() > 0
}

/// The page's flag for a filled form agrees with its fields.
pub open spec fn login_valid(v: LoginView) -> bool {
    v.form_filled == form_complete(v)
}

/// A field edited: the error is cleared and the flag recomputed.
pub open spec fn with_fields(v: LoginView, voice_url: Seq<char>, username: Seq<char>) -> LoginView {
    let w = LoginView { voice_url, username, form_filled: false, login_error: Seq::empty() };
    LoginView { form_filled: form_complete(w), ..w }
}

/// How the login page handles a message: edits of the fields, submitting
/// a filled form (which connects to the server on the management and voice
/// ports), and the error of a failed connection.
pub open spec fn login_step(v: LoginView, m: MessageView) -> (LoginView, Seq<AppActionView>) {
    match m {
        MessageView::LoginPage(LoginPageMessageView::VoiceUrlChanged(url)) => (
            with_fields(v, url, v.username),
            Seq::empty(),
        ),
        MessageView::LoginPage(LoginPageMessageView::UsernameChanged(name)) => (
            with_fields(v, v.voice_url, name),
            Seq::empty(),
        ),
        MessageView::LoginPage(LoginPageMessageView::LoginSubmitted) => {
            if v.form_filled {
                (
                    v,
                    seq![
                        AppActionView::Dispatch(
                            MessageView::ExecuteVoiceCommand(
                                connect_command(v.voice_url, v.username),
                            ),
                        ),
                    ],
                )
            } else {
                (v, Seq::empty())
            }
        },
        MessageView::VoiceCommandResult(VoiceCommandResultView::Connect(Err(e))) => (
            LoginView { login_error: e, ..v },
            Seq::empty(),
        ),
        _ => (v, Seq::empty()),
    }
}

/// Submitting the form connects exactly when both fields hold text, and it
/// connects to the management and voice ports of the address typed, as the
/// name typed.
pub proof fn lemma_submit_connects_iff_filled(v: LoginView)
    requires
        login_valid(v),
    ensures
        login_step(v, MessageView::LoginPage(LoginPageMessageView::LoginSubmitted)).0 == v,
        form_complete(v) ==> login_step(
            v,
            MessageView::LoginPage(LoginPageMessageView::LoginSubmitted),
        ).1 == seq![
            AppActionView::Dispatch(
                MessageView::ExecuteVoiceCommand(connect_command(v.voice_url, v.username)),
            ),
        ],
        !form_complete(v) ==> login_step(
            v,
            MessageView::LoginPage(LoginPageMessageView::LoginSubmitted),
        ).1 == Seq::<AppActionView>::empty(),
{
}

/// Editing either field clears the error shown and keeps the page's flag
/// for a filled form in step with the fields.
pub proof fn lemma_edit_clears_error(v: LoginView, text: Seq<char>)
    ensures
        login_step(v, MessageView::LoginPage(LoginPageMessageView::VoiceUrlChanged(text))).0.login_error
            == Seq::<char>::empty(),
        login_step(v, MessageView::LoginPage(LoginPageMessageView::UsernameChanged(text))).0.login_error
            == Seq::<char>::empty(),
        login_valid(
            login_step(v, MessageView::LoginPage(LoginPageMessageView::VoiceUrlChanged(text))).0,
        ),
        login_valid(
            login_step(v, MessageView::LoginPage(LoginPageMessageView::UsernameChanged(text))).0,
        ),
{
}

impl LoginPage {
    /// The page, with its fields taken from the saved configuration.
    pub fn new(config: &AppConfig) -> (page: Self)
        ensures
            page@.voice_url == config.server.address@,
            page@.username == config.server.username@,
            page@.login_error == Seq::<char>::empty(),
            login_valid(page@),
    {
        let mut page = LoginPage {
            voice_url: config.server.address.clone(),
            username: config.server.username.clone(),
            form_filled: false,
            login_error: String::new(),
        };
        page.form_filled = page.is_form_filled();
        page
    }

    pub fn is_form_filled(&self) -> (filled: bool)
        ensures
            filled == form_complete(self@),
    {
        !self.username.as_str().is_empty() && !self.voice_url.as_str().is_empty()
    }

    pub fn voice_url(&self) -> (u: &String)
        ensures
            u@ == self@.voice_url,
    {
        &self.voice_url
    }

    pub fn username(&self) -> (u: &String)
        ensures
            u@ == self@.username,
    {
        &self.username
    }

    /// The error shown under the form.
    pub fn login_error(&self) -> (e: &String)
        ensures
            e@ == self@.login_error,
    {
        &self.login_error
    }

    /// The page's reaction to a message (see `login_step`).
    pub fn update(&mut self, message: &Message) -> (actions: Vec<AppAction>)
        requires
            login_valid(old(self)@),
        ensures
            (final(self)@, actions_view(actions@)) == login_step(old(self)@, message@),
            login_valid(final(self)@),
    {
        let mut actions: Vec<AppAction> = Vec::new();
        match message {
            Message::LoginPage(msg) => match msg {
                LoginPageMessage::VoiceUrlChanged(content) => {
                    if !self.login_error.as_str().is_empty() {
                        self.login_error = String::new();
                    }
                    assert(self.login_error@ =~= Seq::<char>::empty());
                    self.voice_url = content.clone();
                    self.form_filled = self.is_form_filled();
                },
                LoginPageMessage::UsernameChanged(content) => {
                    if !self.login_error.as_str().is_empty() {
                        self.login_error = String::new();
                    }
                    assert(self.login_error@ =~= Seq::<char>::empty());
                    self.username = content.clone();
                    self.form_filled = self.is_form_filled();
                },
                LoginPageMessage::LoginSubmitted => {
                    if self.form_filled {
                        let cmd = connect_to(self.voice_url.as_str(), self.username.as_str());
                        actions.push(AppAction::Dispatch(Message::ExecuteVoiceCommand(cmd)));
                    }
                },
            },
            Message::VoiceCommandResult(VoiceCommandResult::Connect(Err(err))) => {
                self.login_error = err.clone();
            },
            _ => {},
        }
        assert(actions_view(actions@) =~= login_step(old(self)@, message@).1);
        actions
    }
}

} // verus!
