//! The application shell's navigation state and the messages it turns
//! channel events into.

use vstd::prelude::*;

use crate::net::ChannelEvent;
use crate::protocol::{hex_lower, ChannelMessage, EndpointId};

verus! {

/// The screen the application shows.
#[derive(Debug, Clone, Copy, PartialEq, Eq)]
pub enum Screen {
    Channel,
    Call,
    Settings,
}

/// What the application shell must do after handling a message.
#[derive(Debug, Clone, PartialEq, Eq)]
pub enum AppAction {
    /// Nothing to do.
    NoAction,
    /// Create a channel with the given display name.
    CreateChannel(String),
    /// Join a channel with ticket + display name.
    JoinChannel { ticket: String, display_name: String },
    /// Leave the current channel.
    LeaveChannel,
    /// Copy text to clipboard.
    CopyToClipboard(String),
    /// Toggle microphone (true = enable).
    SetMic(bool),
    /// Toggle camera (true = enable).
    SetCamera(bool),
    /// Toggle screen share.
    SetScreenShare(bool),
    /// Toggle app audio sharing.
    SetAppAudio(bool),
    /// Open file picker.
    OpenFilePicker,
    /// Download a file.
    DownloadFile(String),
    /// Save settings.
    SaveSettings,
    /// Browse for storage directory.
    BrowseStorageDir,
}

/// Which screen is shown, the screen to return to from the settings, and
/// whether a call screen exists.
pub struct Navigation {
    screen: Screen,
    previous_screen: Screen,
    in_call: bool,
}

/// Mathematical state of a [`Navigation`].
pub struct NavigationView {
    pub screen: Screen,
    pub previous_screen: Screen,
    pub in_call: bool,
}

/// The navigation after the settings are opened.
pub open spec fn open_settings_spec(v: NavigationView) -> NavigationView {
    NavigationView { screen: Screen::Settings, previous_screen: v.screen, in_call: v.in_call }
}

/// The navigation after leaving the settings.
pub open spec fn settings_back_spec(v: NavigationView) -> NavigationView {
    NavigationView { screen: v.previous_screen, ..v }
}

impl Navigation {
    pub closed spec fn view(&self) -> NavigationView {
        NavigationView { screen: self.screen, previous_screen: self.previous_screen, in_call: self.in_call }
    }

    /// The application starts on the channel screen, outside any call.
    pub fn new() -> (n: Self)
        ensures
            n.view() == (NavigationView { screen: Screen::Channel, previous_screen: Screen::Channel, in_call: false }),
    {
        Navigation { screen: Screen::Channel, previous_screen: Screen::Channel, in_call: false }
    }

    /// The screen shown.
    pub fn screen(&self) -> (s: Screen)
        ensures
            s == self.view().screen,
    {
        self.screen
    }

    /// Whether a call screen exists.
    pub fn in_call(&self) -> (b: bool)
        ensures
            b == self.view().in_call,
    {
        self.in_call
    }

    /// Open the settings, remembering the screen to come back to.
    pub fn open_settings(&mut self)
        ensures
            final(self).view() == open_settings_spec(old(self).view()),
    {
        self.previous_screen = self.screen;
        self.screen = Screen::Settings;
    }

    /// Leave the settings: back to the screen they were opened from.
    pub fn settings_back(&mut self)
        ensures
            final(self).view() == settings_back_spec(old(self).view()),
    {
        self.screen = self.previous_screen;
    }

    /// A channel was created or joined: the call screen opens.
    pub fn enter_call(&mut self)
        ensures
            final(self).view() == (NavigationView { screen: Screen::Call, in_call: true, ..old(self).view() }),
    {
        self.screen = Screen::Call;
        self.in_call = true;
    }

    /// The user leaves the call: back to the channel screen, and the call
    /// screen is dropped. Without a call screen there is nothing to leave.
    pub fn leave_call(&mut self) -> (left: bool)
        ensures
            left == old(self).view().in_call,
            left ==> final(self).view() == (NavigationView {
                screen: Screen::Channel,
                in_call: false,
                ..old(self).view()
            }),
            !left ==> final(self).view() == old(self).view(),
    {
        if self.in_call {
            self.screen = Screen::Channel;
            self.in_call = false;
            true
        } else {
            false
        }
    }
}

/// What the channel screen asks for.
#[derive(Debug, Clone, PartialEq, Eq)]
pub enum ChannelAction {
    Nothing,
    CreateChannel { display_name: String },
    JoinChannel { ticket: String, display_name: String },
    CopyToClipboard(String),
    OpenSettings,
}

/// What the call screen asks for.
#[derive(Debug, Clone, PartialEq, Eq)]
pub enum CallAction {
    Nothing,
    SetMic(bool),
    SetCamera(bool),
    SetScreenShare(bool),
    SetAppAudio(bool),
    OpenFilePicker,
    LeaveChannel,
    CopyToClipboard(String),
}

/// What the files panel asks for.
#[derive(Debug, Clone, PartialEq, Eq)]
pub enum FilesAction {
    Nothing,
    Download(String),
    OpenFilePicker,
}

/// What the settings screen asks for.
#[derive(Debug, Clone, Copy, PartialEq, Eq)]
pub enum SettingsAction {
    Nothing,
    Save,
    Back,
    BrowseStorageDir,
}

/// An action of one of the screens.
#[derive(Debug, Clone, PartialEq, Eq)]
pub enum ScreenAction {
    Channel(ChannelAction),
    Call(CallAction),
    Files(FilesAction),
    Settings(SettingsAction),
}

/// The navigation after a screen's action and what the application must do.
/// Actions of the call screen count only while a call screen exists.
pub open spec fn screen_action_spec(v: NavigationView, a: ScreenAction) -> (NavigationView, AppAction) {
    match a {
        ScreenAction::Channel(c) => match c {
            ChannelAction::Nothing => (v, AppAction::NoAction),
            ChannelAction::CreateChannel { display_name } => (v, AppAction::CreateChannel(display_name)),
            ChannelAction::JoinChannel { ticket, display_name } => (v, AppAction::JoinChannel { ticket, display_name }),
            ChannelAction::CopyToClipboard(t) => (v, AppAction::CopyToClipboard(t)),
            ChannelAction::OpenSettings => (open_settings_spec(v), AppAction::NoAction),
        },
        ScreenAction::Call(c) => if !v.in_call {
            (v, AppAction::NoAction)
        } else {
            match c {
                CallAction::Nothing => (v, AppAction::NoAction),
                CallAction::SetMic(on) => (v, AppAction::SetMic(on)),
                CallAction::SetCamera(on) => (v, AppAction::SetCamera(on)),
                CallAction::SetScreenShare(on) => (v, AppAction::SetScreenShare(on)),
                CallAction::SetAppAudio(on) => (v, AppAction::SetAppAudio(on)),
                CallAction::OpenFilePicker => (v, AppAction::OpenFilePicker),
                CallAction::LeaveChannel => (
                    NavigationView { screen: Screen::Channel, in_call: false, ..v },
                    AppAction::LeaveChannel,
                ),
                CallAction::CopyToClipboard(t) => (v, AppAction::CopyToClipboard(t)),
            }
        },
        ScreenAction::Files(f) => match f {
            FilesAction::Nothing => (v, AppAction::NoAction),
            FilesAction::Download(h) => (v, AppAction::DownloadFile(h)),
            FilesAction::OpenFilePicker => (v, AppAction::OpenFilePicker),
        },
        ScreenAction::Settings(s) => match s {
            SettingsAction::Nothing => (v, AppAction::NoAction),
            SettingsAction::Save => (v, AppAction::SaveSettings),
            SettingsAction::Back => (settings_back_spec(v), AppAction::NoAction),
            SettingsAction::BrowseStorageDir => (v, AppAction::BrowseStorageDir),
        },
    }
}

impl Navigation {
    /// Handle a screen's action: move between screens where it asks to, and
    /// return what the application must do.
    pub fn on_screen_action(&mut self, action: ScreenAction) -> (r: AppAction)
        ensures
            (final(self).view(), r) == screen_action_spec(old(self).view(), action),
    {
        match action {
            ScreenAction::Channel(c) => match c {
                ChannelAction::Nothing => AppAction::NoAction,
                ChannelAction::CreateChannel { display_name } => AppAction::CreateChannel(display_name),
                ChannelAction::JoinChannel { ticket, display_name } => AppAction::JoinChannel { ticket, display_name },
                ChannelAction::CopyToClipboard(t) => AppAction::CopyToClipboard(t),
                ChannelAction::OpenSettings => {
                    self.open_settings();
                    AppAction::NoAction
                },
            },
            ScreenAction::Call(c) => {
                if !self.in_call {
                    return AppAction::NoAction;
                }
                match c {
                    CallAction::Nothing => AppAction::NoAction,
                    CallAction::SetMic(on) => AppAction::SetMic(on),
                    CallAction::SetCamera(on) => AppAction::SetCamera(on),
                    CallAction::SetScreenShare(on) => AppAction::SetScreenShare(on),
                    CallAction::SetAppAudio(on) => AppAction::SetAppAudio(on),
                    CallAction::OpenFilePicker => AppAction::OpenFilePicker,
                    CallAction::LeaveChannel => {
                        let _ = self.leave_call();
                        AppAction::LeaveChannel
                    },
                    CallAction::CopyToClipboard(t) => AppAction::CopyToClipboard(t),
                }
            },
            ScreenAction::Files(f) => match f {
                FilesAction::Nothing => AppAction::NoAction,
                FilesAction::Download(h) => AppAction::DownloadFile(h),
                FilesAction::OpenFilePicker => AppAction::OpenFilePicker,
            },
            ScreenAction::Settings(s) => match s {
                SettingsAction::Nothing => AppAction::NoAction,
                SettingsAction::Save => AppAction::SaveSettings,
                SettingsAction::Back => {
                    self.settings_back();
                    AppAction::NoAction
                },
                SettingsAction::BrowseStorageDir => AppAction::BrowseStorageDir,
            },
        }
    }
}

/// Opening the settings and going back returns to the screen the user was
/// on, whichever it was, and keeps the call.
pub proof fn law_settings_round_trip(v: NavigationView)
    ensures
        settings_back_spec(open_settings_spec(v)).screen == v.screen,
        settings_back_spec(open_settings_spec(v)).in_call == v.in_call,
{
}

/// Outside a call the call screen's actions do nothing: the navigation
/// stays as it is and the application has nothing to do.
pub proof fn law_call_actions_need_a_call(v: NavigationView, c: CallAction)
    requires
        !v.in_call,
    ensures
        screen_action_spec(v, ScreenAction::Call(c)) == (v, AppAction::NoAction),
{
}

/// The media state announced after the microphone is switched on or off:
/// muted exactly when it is off, the camera as it is, no sharing.
pub fn mic_state_message(endpoint_id: EndpointId, on: bool, camera_on: bool) -> (m: ChannelMessage)
    ensures
        m == (ChannelMessage::MediaStateUpdate {
            endpoint_id,
            audio_muted: !on,
            video_enabled: camera_on,
            screen_sharing: false,
            app_audio_sharing: false,
        }),
{
    ChannelMessage::MediaStateUpdate {
        endpoint_id,
        audio_muted: !on,
        video_enabled: camera_on,
        screen_sharing: false,
        app_audio_sharing: false,
    }
}

/// The media state announced after the camera is switched on or off: the
/// microphone as it is, video exactly when the camera is on, no sharing.
pub fn camera_state_message(endpoint_id: EndpointId, on: bool, audio_muted: bool) -> (m: ChannelMessage)
    ensures
        m == (ChannelMessage::MediaStateUpdate {
            endpoint_id,
            audio_muted,
            video_enabled: on,
            screen_sharing: false,
            app_audio_sharing: false,
        }),
{
    ChannelMessage::MediaStateUpdate { endpoint_id, audio_muted, video_enabled: on, screen_sharing: false, app_audio_sharing: false }
}

/// The media state announced after screen sharing is switched on or off:
/// microphone and camera as they are, sharing exactly when it is on.
pub fn screen_share_state_message(endpoint_id: EndpointId, on: bool, audio_muted: bool, camera_on: bool) -> (m: ChannelMessage)
    ensures
        m == (ChannelMessage::MediaStateUpdate {
            endpoint_id,
            audio_muted,
            video_enabled: camera_on,
            screen_sharing: on,
            app_audio_sharing: false,
        }),
{
    ChannelMessage::MediaStateUpdate {
        endpoint_id,
        audio_muted,
        video_enabled: camera_on,
        screen_sharing: on,
        app_audio_sharing: false,
    }
}

/// A channel event as the user interface consumes it: identities and file
/// hashes in lower-case hexadecimal.
#[derive(Debug, Clone, PartialEq, Eq)]
pub enum ChannelUpdate {
    PeerJoined { name: String, id: String, mic_enabled: bool, camera_enabled: bool, screen_sharing: bool },
    PeerLeft(String),
    PeerConnected(String),
    MediaStateChanged { peer_id: String, audio_muted: bool, video_enabled: bool, screen_sharing: bool },
    FileAnnounced { sender_id: String, hash: String, name: String, size: u64 },
}

/// The update a channel event becomes.
pub open spec fn channel_update_spec(e: ChannelEvent, u: ChannelUpdate) -> bool {
    match e {
        ChannelEvent::PeerJoined(info) => u matches ChannelUpdate::PeerJoined {
            name,
            id,
            mic_enabled,
            camera_enabled,
            screen_sharing,
        } && name@ == info.display_name@ && id@ == hex_lower(info.endpoint_id.0@) && mic_enabled
            == info.capabilities.audio && camera_enabled == info.capabilities.video && screen_sharing
            == info.capabilities.screen_share,
        ChannelEvent::PeerLeft(id) => u matches ChannelUpdate::PeerLeft(h) && h@ == hex_lower(id.0@),
        ChannelEvent::PeerConnected(id) => u matches ChannelUpdate::PeerConnected(h) && h@ == hex_lower(id.0@),
        ChannelEvent::MediaStateChanged { endpoint_id, audio_muted, video_enabled, screen_sharing, .. } => u matches ChannelUpdate::MediaStateChanged {
            peer_id,
            audio_muted: a,
            video_enabled: v,
            screen_sharing: s,
        } && peer_id@ == hex_lower(endpoint_id.0@) && a == audio_muted && v == video_enabled && s == screen_sharing,
        ChannelEvent::FileAnnounced { endpoint_id, file_hash, file_name, file_size } => u matches ChannelUpdate::FileAnnounced {
            sender_id,
            hash,
            name,
            size,
        } && sender_id@ == hex_lower(endpoint_id.0@) && hash@ == hex_lower(file_hash@) && name@ == file_name@ && size
            == file_size,
    }
}

/// Turn a channel event into the update the user interface shows.
pub fn channel_event_to_message(event: ChannelEvent) -> (u: ChannelUpdate)
    ensures
        channel_update_spec(event, u),
{
    match event {
        ChannelEvent::PeerJoined(info) => ChannelUpdate::PeerJoined {
            name: info.display_name,
            id: info.endpoint_id.to_hex(),
            mic_enabled: info.capabilities.audio,
            camera_enabled: info.capabilities.video,
            screen_sharing: info.capabilities.screen_share,
        },
        ChannelEvent::PeerLeft(id) => ChannelUpdate::PeerLeft(id.to_hex()),
        ChannelEvent::PeerConnected(id) => ChannelUpdate::PeerConnected(id.to_hex()),
        ChannelEvent::MediaStateChanged { endpoint_id, audio_muted, video_enabled, screen_sharing, .. } => {
            ChannelUpdate::MediaStateChanged { peer_id: endpoint_id.to_hex(), audio_muted, video_enabled, screen_sharing }
        },
        ChannelEvent::FileAnnounced { endpoint_id, file_hash, file_name, file_size } => ChannelUpdate::FileAnnounced {
            sender_id: endpoint_id.to_hex(),
            hash: crate::protocol::hex_encode(&file_hash),
            name: file_name,
            size: file_size,
        },
    }
}

} // verus!
