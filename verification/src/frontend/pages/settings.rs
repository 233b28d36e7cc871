//! The settings page: the selected input and output devices, the input
//! sensitivity and the volumes, and which option of each radio group the
//! pointer is over.  The microphone stream that drives the level meter is
//! the front end's; the page asks for it to be started and stopped.
use crate::frontend::application::{
    actions_view,
    AppAction,
    AppActionView,
    Key,
    Message,
    MessageView,
    PageType,
};
use vstd::prelude::*;

verus! {

pub struct SettingsPage {
    /// Kept as a list of (name, value) entries with distinct names rather
    /// than a `HashMap<String, _>`: that map form was tried, and Verus proved
    /// neither that a lookup finds a key the map holds nor the map's size
    /// after an insert, since its specification of std maps covers no
    /// `String` key.
    radio_hover_indexes: Vec<(String, usize)>,
    selected_input_device_id: String,
    input_sensitivity: u8,
    input_volume: u8,
    selected_output_device_id: String,
    output_volume: u8,
}

#[derive(Debug)]
pub enum SettingsPageMessage {
    SelectInputDevice(String),
    SelectOutputDevice(String),
    InputSensitivityChanged(u8),
    InputVolumeChanged(u8),
    OutputVolumeChanged(u8),
    RadioHoverEnter(String, usize),
    RadioHoverLeave(String, usize),
    InputStreamCreated(Result<(), String>),
}

pub enum SettingsPageMessageView {
    SelectInputDevice(Seq<char>),
    SelectOutputDevice(Seq<char>),
    InputSensitivityChanged(u8),
    InputVolumeChanged(u8),
    OutputVolumeChanged(u8),
    RadioHoverEnter(Seq<char>, usize),
    RadioHoverLeave(Seq<char>, usize),
    InputStreamCreated(Result<(), Seq<char>>),
}

impl View for SettingsPageMessage {
    type V = SettingsPageMessageView;

    open spec fn view(&self) -> SettingsPageMessageView {
        match self {
            SettingsPageMessage::SelectInputDevice(d) => SettingsPageMessageView::SelectInputDevice(
                d@,
            ),
            SettingsPageMessage::SelectOutputDevice(d) =>
                SettingsPageMessageView::SelectOutputDevice(d@),
            SettingsPageMessage::InputSensitivityChanged(s) =>
                SettingsPageMessageView::InputSensitivityChanged(*s),
            SettingsPageMessage::InputVolumeChanged(v) => SettingsPageMessageView::InputVolumeChanged(
                *v,
            ),
            SettingsPageMessage::OutputVolumeChanged(v) =>
                SettingsPageMessageView::OutputVolumeChanged(*v),
            SettingsPageMessage::RadioHoverEnter(g, i) => SettingsPageMessageView::RadioHoverEnter(
                g@,
                *i,
            ),
            SettingsPageMessage::RadioHoverLeave(g, i) => SettingsPageMessageView::RadioHoverLeave(
                g@,
                *i,
            ),
            SettingsPageMessage::InputStreamCreated(r) => SettingsPageMessageView::InputStreamCreated(
                match r {
                    Ok(()) => Ok(()),
                    Err(e) => Err(e@),
                },
            ),
        }
    }
}

/// The state of the settings page.  `hover` lists, per radio group, the
/// option the pointer is over.
pub struct SettingsView {
    pub hover: Seq<(Seq<char>, usize)>,
    pub selected_input_device_id: Seq<char>,
    pub input_sensitivity: u8,
    pub input_volume: u8,
    pub selected_output_device_id: Seq<char>,
    pub output_volume: u8,
}

impl View for SettingsPage {
    type V = SettingsView;

    closed spec fn view(&self) -> SettingsView {
        SettingsView {
            hover: self.radio_hover_indexes@.map_values(|e: (String, usize)| (e.0@, e.1)),
            selected_input_device_id: self.selected_input_device_id@,
            input_sensitivity: self.input_sensitivity,
            input_volume: self.input_volume,
            selected_output_device_id: self.selected_output_device_id@,
            output_volume: self.output_volume,
        }
    }
}

/// No radio group is listed twice.
pub open spec fn groups_distinct(h: Seq<(Seq<char>, usize)>) -> bool {
    forall|a: int, b: int| 0 <= a < b < h.len() ==> h[a].0 != h[b].0
}

/// `group` is listed.
pub open spec fn has_group(h: Seq<(Seq<char>, usize)>, group: Seq<char>) -> bool {
    exists|j: int| 0 <= j < h.len() && h[j].0 == group
}

/// Where `group` is listed.
pub open spec fn group_pos(h: Seq<(Seq<char>, usize)>, group: Seq<char>) -> int {
    choose|j: int| 0 <= j < h.len() && h[j].0 == group
}

/// The option of `group` the pointer is over, if any.
pub open spec fn hovered(h: Seq<(Seq<char>, usize)>, group: Seq<char>) -> Option<usize> {
    if has_group(h, group) {
        Some(h[group_pos(h, group)].1)
    } else {
        None
    }
}

/// The pointer entered option `index` of `group`.
pub open spec fn hover_enter(h: Seq<(Seq<char>, usize)>, group: Seq<char>, index: usize) -> Seq<
    (Seq<char>, usize),
> {
    if has_group(h, group) {
        h.update(group_pos(h, group), (group, index))
    } else {
        h.push((group, index))
    }
}

/// The pointer left option `index` of `group`: the group is forgotten if
/// that option is the one recorded.
pub open spec fn hover_leave(h: Seq<(Seq<char>, usize)>, group: Seq<char>, index: usize) -> Seq<
    (Seq<char>, usize),
> {
    if has_group(h, group) && h[group_pos(h, group)].1 == index {
        h.remove(group_pos(h, group))
    } else {
        h
    }
}

/// How the settings page handles a message.
pub open spec fn settings_step(v: SettingsView, m: MessageView) -> (SettingsView, Seq<AppActionView>) {
    match m {
        MessageView::SettingsPage(sm) => match sm {
            SettingsPageMessageView::SelectInputDevice(id) => (
                SettingsView { selected_input_device_id: id, ..v },
                seq![AppActionView::StopInputStream, AppActionView::StartInputStream],
            ),
            SettingsPageMessageView::SelectOutputDevice(id) => (
                SettingsView { selected_output_device_id: id, ..v },
                Seq::empty(),
            ),
            SettingsPageMessageView::RadioHoverEnter(g, i) => (
                SettingsView { hover: hover_enter(v.hover, g, i), ..v },
                Seq::empty(),
            ),
            SettingsPageMessageView::RadioHoverLeave(g, i) => (
                SettingsView { hover: hover_leave(v.hover, g, i), ..v },
                Seq::empty(),
            ),
            SettingsPageMessageView::InputSensitivityChanged(s) => (
                SettingsView { input_sensitivity: s, ..v },
                Seq::empty(),
            ),
            SettingsPageMessageView::InputVolumeChanged(x) => (
                SettingsView { input_volume: x, ..v },
                Seq::empty(),
            ),
            SettingsPageMessageView::OutputVolumeChanged(x) => (
                SettingsView { output_volume: x, ..v },
                Seq::empty(),
            ),
            SettingsPageMessageView::InputStreamCreated(_) => (v, Seq::empty()),
        },
        MessageView::KeyPressed(Key::Escape) => (
            v,
            seq![AppActionView::Dispatch(MessageView::SwitchPage(PageType::Room))],
        ),
        _ => (v, Seq::empty()),
    }
}

/// After the pointer enters an option of a group, that option is the one
/// recorded for the group, and no group is listed twice.
pub proof fn lemma_hover_enter(h: Seq<(Seq<char>, usize)>, group: Seq<char>, index: usize)
    requires
        groups_distinct(h),
    ensures
        hovered(hover_enter(h, group, index), group) == Some(index),
        groups_distinct(hover_enter(h, group, index)),
{
    let h2 = hover_enter(h, group, index);
    if has_group(h, group) {
        let p = group_pos(h, group);
        assert(h2[p].0 == group);
        let q = group_pos(h2, group);
        assert(q == p) by {
            if q != p {
                assert(h2[q].0 == h[q].0);
            }
        }
    } else {
        assert(h2[h.len() as int].0 == group);
        let q = group_pos(h2, group);
        assert(q == h.len()) by {
            if q != h.len() {
                assert(h2[q].0 == h[q].0);
            }
        }
    }
}

/// When the pointer leaves the option recorded for a group, the group is
/// forgotten; leaving any other option changes nothing.
pub proof fn lemma_hover_leave(h: Seq<(Seq<char>, usize)>, group: Seq<char>, index: usize)
    requires
        groups_distinct(h),
    ensures
        hovered(h, group) == Some(index) ==> hovered(hover_leave(h, group, index), group) is None,
        hovered(h, group) != Some(index) ==> hover_leave(h, group, index) == h,
        groups_distinct(hover_leave(h, group, index)),
{
    if has_group(h, group) && h[group_pos(h, group)].1 == index {
        let p = group_pos(h, group);
        let h2 = h.remove(p);
        assert forall|j: int| 0 <= j < h2.len() implies h2[j].0 != group by {
            if j < p {
                assert(h2[j] == h[j]);
            } else {
                assert(h2[j] == h[j + 1]);
            }
        }
    }
}

/// Where an option sits in its radio group, which decides its rounded
/// corners.
#[derive(Debug, Clone, Copy, PartialEq, Eq, Structural)]
pub enum RadioPosition {
    Top,
    Middle,
    Bottom,
}

/// How one option of a radio group is drawn.
#[derive(Debug, Clone, Copy, PartialEq, Eq, Structural)]
pub struct RadioOption {
    /// Its key is the selected one.
    pub selected: bool,
    /// The pointer is over it.
    pub hovered: bool,
    pub position: RadioPosition,
    /// A divider follows it: all but the last option.
    pub divider_after: bool,
}

/// How option `i` of a radio group with these keys is drawn.
pub open spec fn radio_option(
    h: Seq<(Seq<char>, usize)>,
    group: Seq<char>,
    keys: Seq<Seq<char>>,
    selected: Seq<char>,
    i: int,
) -> RadioOption {
    RadioOption {
        selected: keys[i] == selected,
        hovered: hovered(h, group) == Some(i as usize),
        position: if i == 0 {
            RadioPosition::Top
        } else if i == keys.len() - 1 {
            RadioPosition::Bottom
        } else {
            RadioPosition::Middle
        },
        divider_after: i < keys.len() - 1,
    }
}

impl SettingsPage {
    /// How the options of radio group `group` are drawn, for options with
    /// these keys in this order and the key `selected` chosen.
    pub fn radio_options(&self, group: &String, keys: &Vec<String>, selected: &String) -> (options:
        Vec<RadioOption>)
        requires
            groups_distinct(self@.hover),
        ensures
            options@.len() == keys@.len(),
            forall|i: int|
                0 <= i < keys@.len() ==> options@[i] == radio_option(
                    self@.hover,
                    group@,
                    keys@.map_values(|k: String| k@),
                    selected@,
                    i,
                ),
    {
        let hovered_index = self.hovered_option(group);
        let ghost ks = keys@.map_values(|k: String| k@);
        let mut options: Vec<RadioOption> = Vec::new();
        let n = keys.len();
        let mut i: usize = 0;
        while i < n
            invariant
                n == keys@.len(),
                ks == keys@.map_values(|k: String| k@),
                hovered_index == hovered(self@.hover, group@),
                i <= n,
                options@.len() == i,
                forall|j: int|
                    0 <= j < i ==> options@[j] == radio_option(self@.hover, group@, ks, selected@, j),
            decreases n - i,
        {
            let position = if i == 0 {
                RadioPosition::Top
            } else if i == n - 1 {
                RadioPosition::Bottom
            } else {
                RadioPosition::Middle
            };
            let is_hovered = match hovered_index {
                Some(h) => h == i,
                None => false,
            };
            let option = RadioOption {
                selected: keys[i] == *selected,
                hovered: is_hovered,
                position,
                divider_after: i < n - 1,
            };
            assert(option == radio_option(self@.hover, group@, ks, selected@, i as int));
            options.push(option);
            i = i + 1;
        }
        options
    }

    /// The page with the stored device choices, sensitivity and volumes.
    pub fn new(
        input_device_id: String,
        input_sensitivity: u8,
        input_volume: u8,
        output_device_id: String,
        output_volume: u8,
    ) -> (page: Self)
        ensures
            page@.hover == Seq::<(Seq<char>, usize)>::empty(),
            page@.selected_input_device_id == input_device_id@,
            page@.input_sensitivity == input_sensitivity,
            page@.input_volume == input_volume,
            page@.selected_output_device_id == output_device_id@,
            page@.output_volume == output_volume,
    {
        let page = SettingsPage {
            radio_hover_indexes: Vec::new(),
            selected_input_device_id: input_device_id,
            input_sensitivity,
            input_volume,
            selected_output_device_id: output_device_id,
            output_volume,
        };
        assert(page@.hover =~= Seq::<(Seq<char>, usize)>::empty());
        page
    }

    /// A copy of the page.
    pub fn duplicate(&self) -> (page: Self)
        ensures
            page@ == self@,
    {
        let mut hover: Vec<(String, usize)> = Vec::new();
        let n = self.radio_hover_indexes.len();
        let mut i: usize = 0;
        while i < n
            invariant
                n == self.radio_hover_indexes@.len(),
                i <= n,
                hover@.len() == i,
                forall|j: int|
                    0 <= j < i ==> (#[trigger] hover@[j]).0@ == self.radio_hover_indexes@[j].0@
                        && hover@[j].1 == self.radio_hover_indexes@[j].1,
            decreases n - i,
        {
            let e = &self.radio_hover_indexes[i];
            hover.push((e.0.clone(), e.1));
            i = i + 1;
        }
        let page = SettingsPage {
            radio_hover_indexes: hover,
            selected_input_device_id: self.selected_input_device_id.clone(),
            input_sensitivity: self.input_sensitivity,
            input_volume: self.input_volume,
            selected_output_device_id: self.selected_output_device_id.clone(),
            output_volume: self.output_volume,
        };
        assert(page@.hover =~= self@.hover);
        page
    }

    /// The option of `group` the pointer is over, if any.
    pub fn hovered_option(&self, group: &String) -> (r: Option<usize>)
        requires
            groups_distinct(self@.hover),
        ensures
            r == hovered(self@.hover, group@),
    {
        match self.find_group(group) {
            Some(j) => Some(self.radio_hover_indexes[j].1),
            None => None,
        }
    }

    pub fn selected_input_device(&self) -> (id: &String)
        ensures
            id@ == self@.selected_input_device_id,
    {
        &self.selected_input_device_id
    }

    pub fn selected_output_device(&self) -> (id: &String)
        ensures
            id@ == self@.selected_output_device_id,
    {
        &self.selected_output_device_id
    }

    pub fn input_sensitivity(&self) -> (s: u8)
        ensures
            s == self@.input_sensitivity,
    {
        self.input_sensitivity
    }

    pub fn input_volume(&self) -> (x: u8)
        ensures
            x == self@.input_volume,
    {
        self.input_volume
    }

    pub fn output_volume(&self) -> (x: u8)
        ensures
            x == self@.output_volume,
    {
        self.output_volume
    }

    /// Where `group` is listed, if it is.
    fn find_group(&self, group: &String) -> (r: Option<usize>)
        requires
            groups_distinct(self@.hover),
        ensures
            match r {
                Some(j) => j < self@.hover.len() && has_group(self@.hover, group@) && j
                    == group_pos(self@.hover, group@),
                None => !has_group(self@.hover, group@),
            },
    {
        let ghost h = self@.hover;
        let mut j: usize = 0;
        while j < self.radio_hover_indexes.len()
            invariant
                h == self@.hover,
                groups_distinct(h),
                j <= h.len(),
                h.len() == self.radio_hover_indexes@.len(),
                forall|k: int| 0 <= k < j ==> h[k].0 != group@,
            decreases self.radio_hover_indexes.len() - j,
        {
            assert(h[j as int].0 == self.radio_hover_indexes@[j as int].0@);
            if self.radio_hover_indexes[j].0 == *group {
                assert(h[j as int].0 == group@);
                proof {
                    let p = group_pos(h, group@);
                    assert(has_group(h, group@));
                    assert(p == j) by {
                        if p != j {
                            if p < j {
                                assert(h[p].0 != group@);
                            } else {
                                assert(h[j as int].0 != h[p].0);
                            }
                        }
                    }
                }
                return Some(j);
            }
            j = j + 1;
        }
        None
    }

    pub fn on_open(&mut self) -> (actions: Vec<AppAction>)
        ensures
            final(self)@ == old(self)@,
            actions_view(actions@) == seq![AppActionView::StartInputStream],
    {
        let actions = vec![AppAction::StartInputStream];
        assert(actions_view(actions@) =~= seq![AppActionView::StartInputStream]);
        actions
    }

    pub fn on_close(&mut self) -> (actions: Vec<AppAction>)
        ensures
            final(self)@ == old(self)@,
            actions_view(actions@) == seq![AppActionView::StopInputStream],
    {
        let actions = vec![AppAction::StopInputStream];
        assert(actions_view(actions@) =~= seq![AppActionView::StopInputStream]);
        actions
    }

    /// The page's reaction to a message (see `settings_step`).
    pub fn update(&mut self, message: &Message) -> (actions: Vec<AppAction>)
        requires
            groups_distinct(old(self)@.hover),
        ensures
            (final(self)@, actions_view(actions@)) == settings_step(old(self)@, message@),
            groups_distinct(final(self)@.hover),
    {
        let mut actions: Vec<AppAction> = Vec::new();
        match message {
            Message::SettingsPage(settings_message) => match settings_message {
                SettingsPageMessage::SelectInputDevice(device_id) => {
                    self.selected_input_device_id = device_id.clone();
                    actions.push(AppAction::StopInputStream);
                    actions.push(AppAction::StartInputStream);
                },
                SettingsPageMessage::SelectOutputDevice(device_id) => {
                    self.selected_output_device_id = device_id.clone();
                },
                SettingsPageMessage::RadioHoverEnter(group, index) => {
                    let ghost h = self@.hover;
                    match self.find_group(group) {
                        Some(j) => {
                            self.radio_hover_indexes.set(j, (group.clone(), *index));
                        },
                        None => {
                            self.radio_hover_indexes.push((group.clone(), *index));
                        },
                    }
                    assert(self@.hover =~= hover_enter(h, group@, *index));
                },
                SettingsPageMessage::RadioHoverLeave(group, index) => {
                    let ghost h = self@.hover;
                    match self.find_group(group) {
                        Some(j) => {
                            if self.radio_hover_indexes[j].1 == *index {
                                self.radio_hover_indexes.remove(j);
                            }
                        },
                        None => {},
                    }
                    assert(self@.hover =~= hover_leave(h, group@, *index));
                },
                SettingsPageMessage::InputSensitivityChanged(sensitivity) => {
                    self.input_sensitivity = *sensitivity;
                },
                SettingsPageMessage::InputVolumeChanged(volume) => {
                    self.input_volume = *volume;
                },
                SettingsPageMessage::OutputVolumeChanged(volume) => {
                    self.output_volume = *volume;
                },
                SettingsPageMessage::InputStreamCreated(_) => {},
            },
            Message::KeyPressed(Key::Escape) => {
                actions.push(AppAction::Dispatch(Message::SwitchPage(PageType::Room)));
            },
            _ => {},
        }
        assert(actions_view(actions@) =~= settings_step(old(self)@, message@).1);
        actions
    }
}

} // verus!
