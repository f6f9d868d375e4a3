//! What a run is told at its start, as far as it can be judged without
//! looking at the disk.

use crate::text::same_text;
use vstd::prelude::*;
use vstd::string::*;

verus! {

/// The kind of image that the seed is.
#[derive(Clone, Copy, Debug, PartialEq, Eq, Structural)]
pub enum ImageType {
    Jpg,
    Png,
}

/// Why a path names no seed that the harness takes.
#[derive(Clone, Copy, Debug, PartialEq, Eq, Structural)]
pub enum InputTypeError {
    /// The path holds no period, and so no extension.
    NoExtension,
    /// What follows the first period is not the extension of a known kind
    /// of image. A path with more than one period ends here too.
    UnknownExtension,
}

/// What follows the first period of a path.
pub open spec fn extension_of(path: Seq<char>) -> Option<Seq<char>>
    decreases path.len(),
{
    if path.len() == 0 {
        None
    } else if path[0] == '.' {
        Some(path.drop_first())
    } else {
        extension_of(path.drop_first())
    }
}

/// The kind of image that a path's extension stands for.
pub open spec fn input_type_of(path: Seq<char>) -> Result<ImageType, InputTypeError> {
    match extension_of(path) {
        None => Err(InputTypeError::NoExtension),
        Some(extension) => if extension == "jpeg"@ || extension == "jpg"@ {
            Ok(ImageType::Jpg)
        } else if extension == "png"@ {
            Ok(ImageType::Png)
        } else {
            Err(InputTypeError::UnknownExtension)
        },
    }
}

/// Tells the kind of image from the path of the seed.
pub fn validate_input_type(path_string: &str) -> (kind: Result<ImageType, InputTypeError>)
    ensures
        kind == input_type_of(path_string@),
{
    let len: usize = path_string.unicode_len();
    let mut position: usize = 0;
    assert(path_string@.skip(0) =~= path_string@);
    while position < len
        invariant
            position <= len,
            len == path_string@.len(),
            extension_of(path_string@) == extension_of(path_string@.skip(position as int)),
        decreases len - position,
    {
        let ghost rest = path_string@.skip(position as int);
        assert(rest.drop_first() =~= path_string@.skip(position + 1));
        if path_string.get_char(position) == '.' {
            let extension: &str = path_string.substring_char(position + 1, len);
            assert(extension@ =~= rest.drop_first());
            return if same_text(extension, "jpeg") || same_text(extension, "jpg") {
                Ok(ImageType::Jpg)
            } else if same_text(extension, "png") {
                Ok(ImageType::Png)
            } else {
                Err(InputTypeError::UnknownExtension)
            };
        }
        position += 1;
    }
    Err(InputTypeError::NoExtension)
}

} // verus!
