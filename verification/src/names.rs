//! Well-known names.
//!
//! Each can be compared with `==` against any other name, such as the type or
//! the subtype of a parsed media type, whatever the case that one was written
//! in. Each is lowercase, so that among these names the ordering and the hash
//! agree with `==` as well.

use vstd::prelude::*;
use vstd::string::is_ascii_spec_bytes;
use crate::ascii::is_lowercase;
use crate::name::Name;

verus! {

/// The name `application`.
pub fn application() -> (name: Name<'static>)
    ensures
        name.text() == "application",
        is_lowercase(name@),
{
    proof {
        reveal_strlit("application");
        is_ascii_spec_bytes("application");
    }
    Name::new_unchecked("application")
}

/// The name `audio`.
pub fn audio() -> (name: Name<'static>)
    ensures
        name.text() == "audio",
        is_lowercase(name@),
{
    proof {
        reveal_strlit("audio");
        is_ascii_spec_bytes("audio");
    }
    Name::new_unchecked("audio")
}

/// The name `font`.
pub fn font() -> (name: Name<'static>)
    ensures
        name.text() == "font",
        is_lowercase(name@),
{
    proof {
        reveal_strlit("font");
        is_ascii_spec_bytes("font");
    }
    Name::new_unchecked("font")
}

/// The name `image`.
pub fn image() -> (name: Name<'static>)
    ensures
        name.text() == "image",
        is_lowercase(name@),
{
    proof {
        reveal_strlit("image");
        is_ascii_spec_bytes("image");
    }
    Name::new_unchecked("image")
}

/// The name `message`.
pub fn message() -> (name: Name<'static>)
    ensures
        name.text() == "message",
        is_lowercase(name@),
{
    proof {
        reveal_strlit("message");
        is_ascii_spec_bytes("message");
    }
    Name::new_unchecked("message")
}

/// The name `model`.
pub fn model() -> (name: Name<'static>)
    ensures
        name.text() == "model",
        is_lowercase(name@),
{
    proof {
        reveal_strlit("model");
        is_ascii_spec_bytes("model");
    }
    Name::new_unchecked("model")
}

/// The name `multipart`.
pub fn multipart() -> (name: Name<'static>)
    ensures
        name.text() == "multipart",
        is_lowercase(name@),
{
    proof {
        reveal_strlit("multipart");
        is_ascii_spec_bytes("multipart");
    }
    Name::new_unchecked("multipart")
}

/// The name `text`.
pub fn text() -> (name: Name<'static>)
    ensures
        name.text() == "text",
        is_lowercase(name@),
{
    proof {
        reveal_strlit("text");
        is_ascii_spec_bytes("text");
    }
    Name::new_unchecked("text")
}

/// The name `video`.
pub fn video() -> (name: Name<'static>)
    ensures
        name.text() == "video",
        is_lowercase(name@),
{
    proof {
        reveal_strlit("video");
        is_ascii_spec_bytes("video");
    }
    Name::new_unchecked("video")
}

/// The name `plain`.
pub fn plain() -> (name: Name<'static>)
    ensures
        name.text() == "plain",
        is_lowercase(name@),
{
    proof {
        reveal_strlit("plain");
        is_ascii_spec_bytes("plain");
    }
    Name::new_unchecked("plain")
}

/// The name `javascript`.
pub fn javascript() -> (name: Name<'static>)
    ensures
        name.text() == "javascript",
        is_lowercase(name@),
{
    proof {
        reveal_strlit("javascript");
        is_ascii_spec_bytes("javascript");
    }
    Name::new_unchecked("javascript")
}

/// The name `png`.
pub fn png() -> (name: Name<'static>)
    ensures
        name.text() == "png",
        is_lowercase(name@),
{
    proof {
        reveal_strlit("png");
        is_ascii_spec_bytes("png");
    }
    Name::new_unchecked("png")
}

/// The name `svg+xml`.
pub fn svg_xml() -> (name: Name<'static>)
    ensures
        name.text() == "svg+xml",
        is_lowercase(name@),
{
    proof {
        reveal_strlit("svg+xml");
        is_ascii_spec_bytes("svg+xml");
    }
    Name::new_unchecked("svg+xml")
}

/// The name `octet-stream`.
pub fn octet_stream() -> (name: Name<'static>)
    ensures
        name.text() == "octet-stream",
        is_lowercase(name@),
{
    proof {
        reveal_strlit("octet-stream");
        is_ascii_spec_bytes("octet-stream");
    }
    Name::new_unchecked("octet-stream")
}

/// The name `related`.
pub fn related() -> (name: Name<'static>)
    ensures
        name.text() == "related",
        is_lowercase(name@),
{
    proof {
        reveal_strlit("related");
        is_ascii_spec_bytes("related");
    }
    Name::new_unchecked("related")
}

/// The name `mixed`.
pub fn mixed() -> (name: Name<'static>)
    ensures
        name.text() == "mixed",
        is_lowercase(name@),
{
    proof {
        reveal_strlit("mixed");
        is_ascii_spec_bytes("mixed");
    }
    Name::new_unchecked("mixed")
}

/// The name `alternative`.
pub fn alternative() -> (name: Name<'static>)
    ensures
        name.text() == "alternative",
        is_lowercase(name@),
{
    proof {
        reveal_strlit("alternative");
        is_ascii_spec_bytes("alternative");
    }
    Name::new_unchecked("alternative")
}

/// The name `charset`.
pub fn charset() -> (name: Name<'static>)
    ensures
        name.text() == "charset",
        is_lowercase(name@),
{
    proof {
        reveal_strlit("charset");
        is_ascii_spec_bytes("charset");
    }
    Name::new_unchecked("charset")
}

/// The name `boundary`.
pub fn boundary() -> (name: Name<'static>)
    ensures
        name.text() == "boundary",
        is_lowercase(name@),
{
    proof {
        reveal_strlit("boundary");
        is_ascii_spec_bytes("boundary");
    }
    Name::new_unchecked("boundary")
}

} // verus!
