//! The image handle: the façade that combines one format handler with
//! in-memory decode and base64 export. Reading a file and writing one are
//! I/O and live outside this library; the handle works on byte vectors.

use vstd::prelude::*;
use vstd::string::StringExecFns;
use base64::Engine;
use crate::error::Error;
use crate::handler::ImageHandler;

verus! {

/// What base64-encoding a byte sequence with the standard alphabet
/// returns; the encoding is a function of the bytes alone.
pub uninterp spec fn base64_of(bytes: Seq<u8>) -> Seq<char>;

/// Relies on base64's standard engine `encode`: standard-alphabet, padded
/// base64 text of the input bytes; no failure mode, and the text is a
/// function of the bytes alone.
#[verifier::external_body]
fn base64_encode(bytes: &Vec<u8>) -> (s: String)
    ensures
        s@ == base64_of(bytes@),
{
    base64::engine::general_purpose::STANDARD.encode(bytes)
}

/// The data-URI text wrapping a payload of the given MIME type.
pub open spec fn spec_data_uri(mime: Seq<char>, payload: Seq<u8>) -> Seq<char> {
    "data:"@ + mime + ";base64,"@ + base64_of(payload)
}

/// The image handle: wraps exactly one format handler instance, which owns
/// the canonical pixel buffer and the format metadata.
pub struct RJimp<T: ImageHandler> {
    pub handler: T,
}

impl<T: ImageHandler> RJimp<T> {
    /// Constructs a handle by decoding an in-memory byte vector; no I/O.
    /// The handle wraps exactly the handler the format's decode returned,
    /// and a decode error comes back unchanged.
    pub fn from_vec(data: Vec<u8>) -> (r: Result<Self, Error<T::Err>>)
        ensures
            r matches Ok(img) ==> img.handler.wf() && T::create_ens(data@, Ok(img.handler)),
            r matches Err(e) ==> T::create_ens(data@, Err(e)),
    {
        match T::create(data) {
            Ok(h) => Ok(RJimp { handler: h }),
            Err(e) => Err(e),
        }
    }

    /// Encodes the buffer to an in-memory byte sequence and wraps it as a
    /// data-URI string `data:<mime>;base64,<payload>`. Encoding is
    /// non-destructive: the buffer is only read; an encode error comes
    /// back unchanged.
    pub fn get_buffer64(&self) -> (r: Result<String, Error<T::Err>>)
        requires
            self.handler.wf(),
        ensures
            r matches Ok(s) ==> exists|v: Seq<u8>|
                #[trigger] self.handler.encode_ok(v) && s@ == spec_data_uri(T::spec_mime(), v),
            r matches Err(e) ==> self.handler.encode_ens(Err(e)),
    {
        let img_data = match self.handler.encode() {
            Ok(v) => v,
            Err(e) => {
                return Err(e);
            },
        };
        let payload = base64_encode(&img_data);
        let mut s = String::new();
        s.append("data:");
        s.append(T::get_mime());
        s.append(";base64,");
        s.append(payload.as_str());
        proof {
            assert(s@ =~= spec_data_uri(T::spec_mime(), img_data@));
        }
        Ok(s)
    }
}

} // verus!
