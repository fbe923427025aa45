use vstd::prelude::*;

use crate::text::concat2;

verus! {

/// Declaration of `image::ImageError`, carried opaquely by [`AppError::Image`].
#[verifier::external_type_specification]
#[verifier::external_body]
pub struct ExImageError(image::ImageError);

/// Declaration of `std::io::Error`, carried opaquely by [`AppError::Io`].
#[verifier::external_type_specification]
#[verifier::external_body]
pub struct ExIoError(std::io::Error);

/// Declaration of `serde_json::Error`, carried opaquely by [`AppError::Json`].
#[verifier::external_type_specification]
#[verifier::external_body]
pub struct ExJsonError(serde_json::Error);

/// Errors reported by the collage library.
#[derive(Debug)]
pub enum AppError {
    /// An error reported by the image codec library.
    Image(image::ImageError),
    /// An I/O error (also used for a corrupt compressed ICC stream).
    Io(std::io::Error),
    /// A configuration that is not valid JSON.
    Json(serde_json::Error),
    /// No input image could be processed.
    NoImagesProcessed,
    /// Any other processing failure, with a human readable message.
    Processing(String),
}

/// Formats an `image::ImageError` with its `Display` impl. Nothing is claimed
/// of the text.
#[verifier::external_body]
fn image_error_text(e: &image::ImageError) -> String {
    e.to_string()
}

/// Formats a `std::io::Error` with its `Display` impl. Nothing is claimed of
/// the text.
#[verifier::external_body]
fn io_error_text(e: &std::io::Error) -> String {
    e.to_string()
}

/// Formats a `serde_json::Error` with its `Display` impl. Nothing is claimed
/// of the text.
#[verifier::external_body]
fn json_error_text(e: &serde_json::Error) -> String {
    e.to_string()
}

impl AppError {
    /// The message shown to the user: a fixed prefix per kind of error, then
    /// its details.
    pub fn to_string(&self) -> (s: String)
        ensures
            self matches AppError::Processing(m) ==> s@ == "\u{5904}\u{7406}\u{5931}\u{8d25}: "@ + m@,
            self matches AppError::NoImagesProcessed ==> s@
                == "\u{6ca1}\u{6709}\u{6210}\u{529f}\u{5904}\u{7406}\u{4efb}\u{4f55}\u{56fe}\u{7247}"@,
            self matches AppError::Image(_) ==> s@.len() >= 8 && s@.take(8)
                == "\u{56fe}\u{50cf}\u{5904}\u{7406}\u{9519}\u{8bef}: "@,
            self matches AppError::Io(_) ==> s@.len() >= 7 && s@.take(7) == "IO \u{9519}\u{8bef}: "@,
            self matches AppError::Json(_) ==> s@.len() >= 11 && s@.take(11)
                == "JSON \u{89e3}\u{6790}\u{9519}\u{8bef}: "@,
    {
        match self {
            AppError::Image(e) => {
                let t = image_error_text(e);
                let s = concat2("\u{56fe}\u{50cf}\u{5904}\u{7406}\u{9519}\u{8bef}: ", t.as_str());
                proof {
                    reveal_strlit("\u{56fe}\u{50cf}\u{5904}\u{7406}\u{9519}\u{8bef}: ");
                    assert(s@.take(8) =~= "\u{56fe}\u{50cf}\u{5904}\u{7406}\u{9519}\u{8bef}: "@);
                }
                s
            },
            AppError::Io(e) => {
                let t = io_error_text(e);
                let s = concat2("IO \u{9519}\u{8bef}: ", t.as_str());
                proof {
                    reveal_strlit("IO \u{9519}\u{8bef}: ");
                    assert(s@.take(7) =~= "IO \u{9519}\u{8bef}: "@);
                }
                s
            },
            AppError::Json(e) => {
                let t = json_error_text(e);
                let s = concat2("JSON \u{89e3}\u{6790}\u{9519}\u{8bef}: ", t.as_str());
                proof {
                    reveal_strlit("JSON \u{89e3}\u{6790}\u{9519}\u{8bef}: ");
                    assert(s@.take(11) =~= "JSON \u{89e3}\u{6790}\u{9519}\u{8bef}: "@);
                }
                s
            },
            AppError::NoImagesProcessed => String::from_str(
                "\u{6ca1}\u{6709}\u{6210}\u{529f}\u{5904}\u{7406}\u{4efb}\u{4f55}\u{56fe}\u{7247}",
            ),
            AppError::Processing(m) => concat2("\u{5904}\u{7406}\u{5931}\u{8d25}: ", m.as_str()),
        }
    }
}

} // verus!
