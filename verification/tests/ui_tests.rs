//! Tests of the interface-level types: tab navigation and error values.

use key_dash::player::PlayerError as AppPlayerError;
use key_dash::tab::Tab;
use key_dash::PlayerError;

#[test]
fn tab_next_walks_forward_and_saturates() {
    assert_eq!(Tab::Player.next(), Tab::Playlist);
    assert_eq!(Tab::Playlist.next(), Tab::SoundFont);
    assert_eq!(Tab::SoundFont.next(), Tab::Settings);
    assert_eq!(Tab::Settings.next(), Tab::About);
    assert_eq!(Tab::About.next(), Tab::About);
}

#[test]
fn tab_previous_walks_backward_and_saturates() {
    assert_eq!(Tab::About.previous(), Tab::Settings);
    assert_eq!(Tab::Settings.previous(), Tab::SoundFont);
    assert_eq!(Tab::SoundFont.previous(), Tab::Playlist);
    assert_eq!(Tab::Playlist.previous(), Tab::Player);
    assert_eq!(Tab::Player.previous(), Tab::Player);
}

#[test]
fn tab_default_is_player() {
    assert_eq!(Tab::default(), Tab::Player);
}

#[test]
fn player_error_values_are_distinct() {
    assert_ne!(PlayerError::NoSink, PlayerError::NoFont);
    assert_ne!(PlayerError::NoMidi, PlayerError::NoDevice);
    assert_ne!(AppPlayerError::AudioNoSink, AppPlayerError::AudioNoFont);
    assert_ne!(AppPlayerError::AudioNoFont, AppPlayerError::AudioNoMidi);
}
