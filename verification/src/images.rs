//! Where images are kept on disk.

use vstd::prelude::*;
use vstd::string::StringExecFns;

verus! {

/// The directory that holds the images.
pub const IMAGE_DIR: &'static str = "static/";

/// The extension given to every uploaded image.
pub const IMAGE_EXTENSION: &'static str = ".png";

/// The file that an uploaded image named `name` is written to.
pub open spec fn upload_path(name: Seq<char>) -> Seq<char> {
    IMAGE_DIR@ + name + IMAGE_EXTENSION@
}

/// The file that a request for the image `requested` reads.
pub open spec fn image_path(requested: Seq<char>) -> Seq<char> {
    IMAGE_DIR@ + requested
}

/// Why an upload cannot be stored.
#[derive(Clone, Copy, Debug, PartialEq, Eq, Structural)]
pub enum UploadError {
    /// The uploaded file came without a name.
    MissingFileName,
}

impl UploadError {
    /// The message reported for this error.
    pub fn message(&self) -> (text: &'static str)
        ensures
            text@ == "Failed to get file name"@,
    {
        "Failed to get file name"
    }
}

/// The file to write an uploaded image named `name` to.
pub fn upload_file(name: &str) -> (file: String)
    ensures
        file@ == upload_path(name@),
{
    let mut file = String::from_str(IMAGE_DIR);
    file.append(name);
    file.append(IMAGE_EXTENSION);
    file
}

/// The file to write an uploaded image to, given the name it came with.
/// An upload without a name is refused.
pub fn upload_image(name: Option<&str>) -> (target: Result<String, UploadError>)
    ensures
        match target {
            Ok(file) => name matches Some(given) && file@ == upload_path(given@),
            Err(error) => name is None && error == UploadError::MissingFileName,
        },
{
    match name {
        Some(given) => Ok(upload_file(given)),
        None => Err(UploadError::MissingFileName),
    }
}

/// The file to read when the image `path` is requested.
pub fn get_image(path: &str) -> (file: String)
    ensures
        file@ == image_path(path@),
{
    let mut file = String::from_str(IMAGE_DIR);
    file.append(path);
    file
}

} // verus!
