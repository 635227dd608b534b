use article_store::images::{
    get_image, upload_file, upload_image, UploadError, IMAGE_DIR, IMAGE_EXTENSION,
};

#[test]
fn upload_goes_to_the_image_directory_as_png() {
    assert_eq!(upload_image(Some("cat")), Ok("static/cat.png".to_string()));
    assert_eq!(upload_file("cat"), "static/cat.png");
}

#[test]
fn upload_keeps_the_name_as_it_came() {
    assert_eq!(upload_image(Some("")), Ok("static/.png".to_string()));
    assert_eq!(upload_image(Some("a b.jpg")), Ok("static/a b.jpg.png".to_string()));
    assert_eq!(upload_image(Some("\u{e9}t\u{e9}")), Ok("static/\u{e9}t\u{e9}.png".to_string()));
}

#[test]
fn upload_without_a_name_is_refused() {
    assert_eq!(upload_image(None), Err(UploadError::MissingFileName));
    assert_eq!(UploadError::MissingFileName.message(), "Failed to get file name");
}

#[test]
fn requested_image_is_read_from_the_image_directory() {
    assert_eq!(get_image("cat.png"), "static/cat.png");
    assert_eq!(get_image(""), "static/");
}

#[test]
fn image_directory_and_extension() {
    assert_eq!(IMAGE_DIR, "static/");
    assert_eq!(IMAGE_EXTENSION, ".png");
}
