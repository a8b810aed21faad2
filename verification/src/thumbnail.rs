//! The files that go with the card of a user: the picture as it was fetched
//! and a thumbnail of it.
//!
//! The picture arrives as a PNG file. The thumbnail is the same picture as a
//! JPEG file, which the `image` crate encodes. What that file holds is not
//! stated here: it is whatever `image` makes of the picture, the same for the
//! same picture.

use vstd::prelude::*;
use vstd::string::*;

verus! {

/// The JPEG file that `image` encodes from the picture in the PNG file `png`;
/// `None` where `png` is no PNG file that `image` reads, or holds a picture
/// that it does not encode as JPEG.
pub uninterp spec fn jpeg_of_png(png: Seq<u8>) -> Option<Seq<u8>>;

/// Calls `image::load_from_memory_with_format` for the PNG format and, on the
/// picture read, `DynamicImage::write_to` for the JPEG format. Trusted: the
/// result is the file written, and `None` where either call gave an error.
#[verifier::external_body]
fn png_to_jpeg(png: &[u8]) -> (jpeg: Option<Vec<u8>>)
    ensures
        match jpeg {
            Some(bytes) => jpeg_of_png(png@) == Some(bytes@),
            None => jpeg_of_png(png@) is None,
        },
{
    let picture = image::load_from_memory_with_format(png, image::ImageFormat::Png).ok()?;
    let mut jpeg = Vec::new();
    picture.write_to(&mut jpeg, image::ImageFormat::Jpeg).ok()?;
    Some(jpeg)
}

/// A file to upload, as contracts speak of it.
pub struct Upload {
    pub name: Seq<char>,
    pub data: Seq<u8>,
    pub mime: Seq<char>,
}

/// A file to upload: its name, its bytes and its media type.
#[derive(Debug)]
pub struct InputFile {
    pub name: String,
    pub data: Vec<u8>,
    pub mime: String,
}

impl View for InputFile {
    type V = Upload;

    open spec fn view(&self) -> Upload {
        Upload { name: self.name@, data: self.data@, mime: self.mime@ }
    }
}

/// The two files of a user's card.
#[derive(Debug)]
pub struct ProfileFiles {
    pub picture: InputFile,
    pub thumbnail: InputFile,
}

/// The file that carries the picture of the user `handle`.
pub open spec fn picture_upload(handle: Seq<char>, png: Seq<u8>) -> Upload {
    Upload { name: handle, data: png, mime: "image/png"@ }
}

/// The file that carries a thumbnail.
pub open spec fn thumbnail_upload(jpeg: Seq<u8>) -> Upload {
    Upload { name: "thumbnail"@, data: jpeg, mime: "image/jpg"@ }
}

/// Names the picture of a user after the user's handle, and its thumbnail
/// `thumbnail`.
pub fn attach_profile_files(handle: &str, png: Vec<u8>, jpeg: Vec<u8>) -> (files: ProfileFiles)
    ensures
        files.picture@ == picture_upload(handle@, png@),
        files.thumbnail@ == thumbnail_upload(jpeg@),
{
    ProfileFiles {
        picture: InputFile {
            name: String::from_str(handle),
            data: png,
            mime: String::from_str("image/png"),
        },
        thumbnail: InputFile {
            name: String::from_str("thumbnail"),
            data: jpeg,
            mime: String::from_str("image/jpg"),
        },
    }
}

/// Makes the files of a user's card from the picture that was fetched: the
/// picture itself and its thumbnail. `None` where no thumbnail can be made
/// of the picture.
pub fn profile_files(handle: &str, png: Vec<u8>) -> (files: Option<ProfileFiles>)
    ensures
        match files {
            Some(f) => jpeg_of_png(png@) matches Some(jpeg) && f.picture@ == picture_upload(
                handle@,
                png@,
            ) && f.thumbnail@ == thumbnail_upload(jpeg),
            None => jpeg_of_png(png@) is None,
        },
{
    match png_to_jpeg(png.as_slice()) {
        Some(jpeg) => Some(attach_profile_files(handle, png, jpeg)),
        None => None,
    }
}

} // verus!
