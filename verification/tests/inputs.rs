use devo_server::inputs::{
    image_extension, image_from_data_uri, normalize_user_inputs, parse_image_uri, ImageUriError,
    PartRefusal, UserInput,
};

#[test]
fn images_are_read_from_data_uris() {
    let image = image_from_data_uri("data:image/jpeg;base64,aGVsbG8=", None).expect("image");
    assert_eq!(image.bytes, b"hello".to_vec());
    assert_eq!(image.extension, "jpg");
    let image =
        image_from_data_uri("data:image/jpeg;base64,aGVsbG8=", Some("image/webp")).expect("image");
    assert_eq!(image.extension, "webp");
    let payload = parse_image_uri("data:;base64,,", None).expect("payload");
    assert_eq!(payload.encoded, ",");
    assert_eq!(payload.mime, "image/png");
    assert_eq!(image_extension("image/gif"), "gif");
    assert_eq!(image_extension("image/tiff"), "png");
}

#[test]
fn other_uris_are_refused() {
    let message = |uri: &str| image_from_data_uri(uri, None).unwrap_err().message();
    assert_eq!(message("https://x/y.png"), "only data: image URIs are supported");
    assert_eq!(message("data:image/png;base64"), "invalid data URI: missing payload");
    assert_eq!(message("data:image/png,abc"), "only base64-encoded data URIs are supported");
    let error = image_from_data_uri("data:image/png;base64,a*c=", None).unwrap_err();
    assert!(matches!(&error, ImageUriError::Undecodable(_)));
    assert!(error.message().starts_with("failed to decode image data URI: "));
    assert!(image_from_data_uri("data:image/png;base64,aGVsbG8", None).is_err());
}

fn image(uri: &str) -> UserInput {
    UserInput::Image { uri: uri.to_string(), mime_type: None, detail: Some(2) }
}

#[test]
fn inline_images_become_files() {
    let input = vec![
        UserInput::Text("look".to_string()),
        image("data:image/png;base64,AA=="),
        UserInput::LocalImage { path: "/b".to_string(), detail: None },
    ];
    let stored = vec![Ok("/tmp/a.png".to_string())];
    assert_eq!(
        normalize_user_inputs(&input, &stored).expect("normal"),
        vec![
            UserInput::Text("look".to_string()),
            UserInput::LocalImage { path: "/tmp/a.png".to_string(), detail: Some(2) },
            UserInput::LocalImage { path: "/b".to_string(), detail: None },
        ]
    );
}

#[test]
fn unusable_parts_refuse_the_input() {
    let input = vec![UserInput::Audio { uri: "a.wav".to_string() }];
    let refusal = normalize_user_inputs(&input, &vec![]).unwrap_err();
    assert_eq!(refusal.queue_message(), "unsupported input modality for queue: a.wav");
    assert_eq!(
        refusal.turn_message(),
        "audio inputs are not served by canonical turn/start yet"
    );
    let input = vec![image("x"), UserInput::Audio { uri: "a.wav".to_string() }];
    let stored = vec![Err(PartRefusal::Image(ImageUriError::NotData))];
    let refusal = normalize_user_inputs(&input, &stored).unwrap_err();
    assert_eq!(
        refusal.turn_message(),
        "failed to decode image input: only data: image URIs are supported"
    );
    assert_eq!(refusal.queue_message(), "only data: image URIs are supported");
    assert_eq!(
        PartRefusal::NotStored("disk full".to_string()).turn_message(),
        "failed to decode image input: disk full"
    );
}
