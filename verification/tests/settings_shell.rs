use bisc::media::{VideoConfig, VoiceConfig};
use bisc::net::{ChannelEvent, PeerInfo};
use bisc::protocol::{ChannelMessage, EndpointId, MediaCapabilities};
use bisc::settings::{video_config_for_quality, voice_config_for_quality, AppDirs, Quality, Settings, Theme};
use bisc::shell::{
    camera_state_message, channel_event_to_message, mic_state_message, screen_share_state_message, AppAction, CallAction,
    ChannelAction, ChannelUpdate, FilesAction, Navigation, Screen, ScreenAction, SettingsAction,
};

fn test_dirs() -> AppDirs {
    AppDirs { config_dir: "/tmp/bisc-cfg".to_string(), default_storage_dir: "/tmp/bisc-cfg/data".to_string() }
}

#[test]
fn default_settings_for_dirs() {
    let dirs = test_dirs();
    let settings = Settings::default_with_dirs(&dirs);
    assert_eq!(settings.display_name, "user");
    assert_eq!(settings.storage_dir, "/tmp/bisc-cfg/data");
    assert_eq!(settings.video_quality, Quality::Medium);
    assert_eq!(settings.audio_quality, Quality::Medium);
    assert!(settings.input_device.is_empty());
    assert!(settings.output_device.is_empty());
    assert_eq!(settings.theme, Theme::Dark);
}

#[test]
fn missing_or_corrupted_file_gives_defaults() {
    let dirs = test_dirs();
    let loaded = Settings::load(None, &dirs);
    assert_eq!(loaded.video_quality, Quality::Medium);
    assert_eq!(loaded.theme, Theme::Dark);
}

#[test]
fn stored_settings_are_kept() {
    let dirs = test_dirs();
    let stored = Settings {
        display_name: "Alice".to_string(),
        storage_dir: "/tmp/bisc-test".to_string(),
        video_quality: Quality::High,
        audio_quality: Quality::Low,
        input_device: "USB Mic".to_string(),
        output_device: "Headphones".to_string(),
        theme: Theme::Light,
    };
    assert_eq!(Settings::load(Some(stored.clone()), &dirs), stored);
}

#[test]
fn quality_presets() {
    assert_eq!(
        voice_config_for_quality(Quality::Low),
        VoiceConfig { initial_bitrate_bps: 24_000, max_bitrate_bps: 32_000, min_bitrate_bps: 12_000 }
    );
    assert_eq!(voice_config_for_quality(Quality::High).max_bitrate_bps, 128_000);
    assert_eq!(
        video_config_for_quality(Quality::Medium),
        VideoConfig {
            width: 1280,
            height: 720,
            framerate: 30,
            bitrate_bps: 512_000,
            max_bitrate_bps: 1_000_000,
            min_bitrate_bps: 128_000,
        }
    );
    assert_eq!(video_config_for_quality(Quality::Low).framerate, 24);
}

#[test]
fn navigation_values() {
    assert_ne!(Screen::Channel, Screen::Call);
    assert_eq!(AppAction::SetMic(true), AppAction::SetMic(true));
    assert_ne!(AppAction::NoAction, AppAction::LeaveChannel);
}

fn dummy_endpoint_id() -> EndpointId {
    EndpointId([
        1, 2, 3, 4, 5, 6, 7, 8, 9, 10, 11, 12, 13, 14, 15, 16, 17, 18, 19, 20, 21, 22, 23, 24, 25, 26, 27, 28, 29,
        30, 31, 32,
    ])
}

#[test]
fn maps_peer_joined() {
    let id = dummy_endpoint_id();
    let event = ChannelEvent::PeerJoined(PeerInfo {
        endpoint_id: id.clone(),
        display_name: "Alice".to_string(),
        capabilities: MediaCapabilities { audio: true, video: true, screen_share: false },
        last_heartbeat: 0,
    });

    let msg = channel_event_to_message(event);
    match msg {
        ChannelUpdate::PeerJoined { name, id: msg_id, mic_enabled, camera_enabled, screen_sharing } => {
            assert_eq!(name, "Alice");
            assert_eq!(msg_id, id.to_hex());
            assert!(mic_enabled);
            assert!(camera_enabled);
            assert!(!screen_sharing);
        }
        other => panic!("expected PeerJoined, got {:?}", other),
    }
}

#[test]
fn maps_peer_left() {
    let id = dummy_endpoint_id();
    let msg = channel_event_to_message(ChannelEvent::PeerLeft(id.clone()));
    match msg {
        ChannelUpdate::PeerLeft(hex) => assert_eq!(hex, id.to_hex()),
        other => panic!("expected PeerLeft, got {:?}", other),
    }
}

#[test]
fn maps_peer_connected() {
    let id = dummy_endpoint_id();
    let msg = channel_event_to_message(ChannelEvent::PeerConnected(id.clone()));
    match msg {
        ChannelUpdate::PeerConnected(hex) => assert_eq!(hex, id.to_hex()),
        other => panic!("expected PeerConnected, got {:?}", other),
    }
}

#[test]
fn maps_media_state_changed() {
    let id = dummy_endpoint_id();
    let msg = channel_event_to_message(ChannelEvent::MediaStateChanged {
        endpoint_id: id.clone(),
        audio_muted: true,
        video_enabled: false,
        screen_sharing: true,
        app_audio_sharing: false,
    });
    match msg {
        ChannelUpdate::MediaStateChanged { peer_id, audio_muted, video_enabled, screen_sharing } => {
            assert_eq!(peer_id, id.to_hex());
            assert!(audio_muted);
            assert!(!video_enabled);
            assert!(screen_sharing);
        }
        other => panic!("expected MediaStateChanged, got {:?}", other),
    }
}

#[test]
fn maps_file_announced() {
    let id = dummy_endpoint_id();
    let hash = [42u8; 32];
    let msg = channel_event_to_message(ChannelEvent::FileAnnounced {
        endpoint_id: id.clone(),
        file_hash: hash,
        file_name: "photo.jpg".to_string(),
        file_size: 1024,
    });
    match msg {
        ChannelUpdate::FileAnnounced { sender_id, hash: h, name, size } => {
            assert_eq!(sender_id, id.to_hex());
            assert_eq!(h, data_encoding::HEXLOWER.encode(&hash));
            assert_eq!(name, "photo.jpg");
            assert_eq!(size, 1024);
        }
        other => panic!("expected FileAnnounced, got {:?}", other),
    }
}

#[test]
fn navigation_starts_on_channel_screen() {
    let nav = Navigation::new();
    assert_eq!(nav.screen(), Screen::Channel);
    assert!(!nav.in_call());
}

#[test]
fn navigation_settings_from_call_returns_to_call() {
    let mut nav = Navigation::new();
    nav.enter_call();
    assert_eq!(nav.screen(), Screen::Call);
    nav.open_settings();
    assert_eq!(nav.screen(), Screen::Settings);
    nav.settings_back();
    assert_eq!(nav.screen(), Screen::Call);
    assert!(nav.in_call());
}

#[test]
fn navigation_leave_call_returns_to_channel_screen() {
    let mut nav = Navigation::new();
    assert!(!nav.leave_call());
    nav.enter_call();
    assert!(nav.leave_call());
    assert_eq!(nav.screen(), Screen::Channel);
    assert!(!nav.in_call());
}

#[test]
fn screen_actions_become_app_actions() {
    let mut nav = Navigation::new();
    // Call-screen actions count only inside a call.
    assert_eq!(nav.on_screen_action(ScreenAction::Call(CallAction::SetMic(true))), AppAction::NoAction);
    assert_eq!(
        nav.on_screen_action(ScreenAction::Channel(ChannelAction::CreateChannel { display_name: "a".to_string() })),
        AppAction::CreateChannel("a".to_string())
    );
    nav.enter_call();
    assert_eq!(nav.on_screen_action(ScreenAction::Call(CallAction::SetMic(true))), AppAction::SetMic(true));
    assert_eq!(nav.on_screen_action(ScreenAction::Channel(ChannelAction::OpenSettings)), AppAction::NoAction);
    assert_eq!(nav.screen(), Screen::Settings);
    assert_eq!(nav.on_screen_action(ScreenAction::Settings(SettingsAction::Save)), AppAction::SaveSettings);
    assert_eq!(nav.on_screen_action(ScreenAction::Settings(SettingsAction::Back)), AppAction::NoAction);
    assert_eq!(nav.screen(), Screen::Call);
    assert_eq!(
        nav.on_screen_action(ScreenAction::Files(FilesAction::Download("h".to_string()))),
        AppAction::DownloadFile("h".to_string())
    );
    assert_eq!(nav.on_screen_action(ScreenAction::Call(CallAction::LeaveChannel)), AppAction::LeaveChannel);
    assert_eq!(nav.screen(), Screen::Channel);
    assert!(!nav.in_call());
}

#[test]
fn media_toggles_announce_their_state() {
    let id = EndpointId([7u8; 32]);
    let state = |m: ChannelMessage| match m {
        ChannelMessage::MediaStateUpdate { endpoint_id, audio_muted, video_enabled, screen_sharing, app_audio_sharing } => {
            assert_eq!(endpoint_id, id);
            (audio_muted, video_enabled, screen_sharing, app_audio_sharing)
        }
        _ => panic!("not a media state update"),
    };
    assert_eq!(state(mic_state_message(id, false, true)), (true, true, false, false));
    assert_eq!(state(mic_state_message(id, true, false)), (false, false, false, false));
    assert_eq!(state(camera_state_message(id, true, true)), (true, true, false, false));
    assert_eq!(state(camera_state_message(id, false, false)), (false, false, false, false));
    assert_eq!(state(screen_share_state_message(id, true, false, true)), (false, true, true, false));
}

#[test]
fn call_actions_without_a_call_do_nothing() {
    let mut nav = Navigation::new();
    for a in [CallAction::SetMic(true), CallAction::LeaveChannel, CallAction::OpenFilePicker] {
        assert_eq!(nav.on_screen_action(ScreenAction::Call(a)), AppAction::NoAction);
        assert_eq!(nav.screen(), Screen::Channel);
        assert!(!nav.in_call());
    }
}
