use waigaya_core::images::{
    FirstHop, HttpResponseModel, candidate_urls, encode_image_response, file_is_image,
    first_hop_step, second_hop_step,
};
use waigaya_core::transport::SlackFile;

fn response(status: u16, location: Option<&str>, ct: Option<&str>, body: &[u8])
    -> HttpResponseModel {
    HttpResponseModel {
        status,
        location: location.map(|s| s.to_string()),
        content_type: ct.map(|s| s.to_string()),
        body: body.to_vec(),
    }
}

fn file(mime: Option<&str>) -> SlackFile {
    SlackFile {
        mimetype: mime.map(|s| s.to_string()),
        url_private_download: Some("https://files.test/download".to_string()),
        url_private: Some("https://files.test/private".to_string()),
        thumb_480: Some("https://files.test/t480".to_string()),
        thumb_360: Some("https://files.test/t360".to_string()),
        name: Some("pic.png".to_string()),
    }
}

#[test]
fn redirect_is_followed_via_its_location() {
    match first_hop_step(&response(302, Some("https://cdn.test/file?tok=SECRET-REDACTED"), None, b"")) {
        FirstHop::Redirect(u) => assert_eq!(u, "https://cdn.test/file?tok=SECRET-REDACTED"),
        _ => panic!("expected a redirect"),
    }
    assert!(matches!(first_hop_step(&response(302, None, None, b"")), FirstHop::Failed));
    assert!(matches!(first_hop_step(&response(200, None, None, b"")), FirstHop::Direct));
    assert!(matches!(first_hop_step(&response(403, None, None, b"")), FirstHop::Failed));
}

#[test]
fn html_answer_yields_no_attachment() {
    let r = encode_image_response("image/png", &Some("text/html; charset=utf-8".to_string()), vec![1]);
    assert!(r.is_none());
}

#[test]
fn redirect_to_html_page_is_a_failure_not_a_success() {
    match first_hop_step(&response(302, Some("https://cdn.test/expired"), None, b"")) {
        FirstHop::Redirect(_) => {},
        _ => panic!("expected a redirect"),
    }
    let second = response(200, None, Some("text/html"), b"<html>login</html>");
    assert!(second_hop_step("image/png", second).is_none());
}

#[test]
fn failed_second_hop_yields_nothing() {
    let second = response(404, None, Some("image/png"), &[1, 2, 3]);
    assert!(second_hop_step("image/png", second).is_none());
}

#[test]
fn direct_success_encodes_the_body() {
    let r = encode_image_response("image/png", &None, vec![1, 2, 3]).unwrap();
    assert_eq!(r, "data:image/png;base64,AQID");
}

#[test]
fn content_type_overrides_declared_mime_for_images() {
    let r = encode_image_response(
        "application/octet-stream",
        &Some("image/jpeg; q=1".to_string()),
        vec![255],
    ).unwrap();
    assert_eq!(r, "data:image/jpeg;base64,/w==");
}

#[test]
fn non_image_content_type_keeps_declared_mime() {
    let r = encode_image_response("image/gif", &Some("application/json".to_string()), vec![0])
        .unwrap();
    assert_eq!(r, "data:image/gif;base64,AA==");
}

#[test]
fn empty_body_encodes_to_empty_payload() {
    let r = encode_image_response("image/png", &None, Vec::new()).unwrap();
    assert_eq!(r, "data:image/png;base64,");
}

#[test]
fn candidates_are_tried_in_priority_order() {
    let urls = candidate_urls(&file(Some("image/png")));
    assert_eq!(
        urls,
        vec![
            "https://files.test/download".to_string(),
            "https://files.test/t480".to_string(),
            "https://files.test/t360".to_string(),
            "https://files.test/private".to_string(),
        ]
    );
    let sparse = SlackFile {
        mimetype: Some("image/png".to_string()),
        url_private_download: None,
        url_private: Some("https://files.test/private".to_string()),
        thumb_480: None,
        thumb_360: None,
        name: None,
    };
    assert_eq!(candidate_urls(&sparse), vec!["https://files.test/private".to_string()]);
}

#[test]
fn only_image_attachments_are_considered() {
    assert!(file_is_image(&file(Some("image/png"))));
    assert!(!file_is_image(&file(Some("application/pdf"))));
    assert!(!file_is_image(&file(None)));
}
