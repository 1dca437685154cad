use porky_mdns::errors::JoinError;
use porky_mdns::security::{auth_mode_for, AuthMode};

#[test]
fn maps_the_four_supported_modes() {
    assert_eq!(auth_mode_for("open"), Ok(AuthMode::Open));
    assert_eq!(auth_mode_for("wpa"), Ok(AuthMode::Wpa));
    assert_eq!(auth_mode_for("wpa2"), Ok(AuthMode::Wpa2));
    assert_eq!(auth_mode_for("wpa3"), Ok(AuthMode::Wpa3));
}

#[test]
fn rejects_every_other_mode() {
    assert_eq!(auth_mode_for("wep"), Err(JoinError::UnsupportedSecurity));
    assert_eq!(auth_mode_for(""), Err(JoinError::UnsupportedSecurity));
    assert_eq!(auth_mode_for("WPA2"), Err(JoinError::UnsupportedSecurity));
    assert_eq!(auth_mode_for("wpa2 "), Err(JoinError::UnsupportedSecurity));
    assert_eq!(auth_mode_for("wpa4"), Err(JoinError::UnsupportedSecurity));
}
