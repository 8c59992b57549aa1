use waigaya_core::profile::{UserProfile, author_icon, author_name, mention_name};

fn profile(
    name: Option<&str>,
    real: Option<&str>,
    display: Option<&str>,
    i72: Option<&str>,
    i48: Option<&str>,
) -> UserProfile {
    UserProfile {
        name: name.map(|s| s.to_string()),
        real_name: real.map(|s| s.to_string()),
        display_name: display.map(|s| s.to_string()),
        image_72: i72.map(|s| s.to_string()),
        image_48: i48.map(|s| s.to_string()),
    }
}

#[test]
fn author_name_prefers_real_name() {
    let p = profile(Some("gen"), Some("Real"), None, None, None);
    assert_eq!(author_name(Some(&p)), "Real");
    let p = profile(Some("gen"), None, None, None, None);
    assert_eq!(author_name(Some(&p)), "gen");
    let p = profile(None, None, None, None, None);
    assert_eq!(author_name(Some(&p)), "unknown");
    assert_eq!(author_name(None), "unknown");
}

#[test]
fn mention_name_prefers_non_empty_display_name() {
    let p = profile(Some("gen"), Some("Real"), Some("Disp"), None, None);
    assert_eq!(mention_name(Some(&p)), "Disp");
    let p = profile(Some("gen"), Some("Real"), Some(""), None, None);
    assert_eq!(mention_name(Some(&p)), "Real");
    assert_eq!(mention_name(None), "unknown");
}

#[test]
fn author_icon_prefers_the_larger_avatar() {
    let p = profile(None, None, None, Some("u72"), Some("u48"));
    assert_eq!(author_icon(Some(&p)), "u72");
    let p = profile(None, None, None, None, Some("u48"));
    assert_eq!(author_icon(Some(&p)), "u48");
    let p = profile(None, None, None, None, None);
    assert_eq!(author_icon(Some(&p)), "");
    assert_eq!(author_icon(None), "");
}
