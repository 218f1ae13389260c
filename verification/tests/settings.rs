use message_picker::settings::UserSettings;

#[test]
fn user_settings_default_should_leave_name_and_icon_unset() {
    let settings = UserSettings::default();
    assert_eq!(settings.name, None);
    assert_eq!(settings.icon_url, None);
}
