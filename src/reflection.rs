//! What the replies of the upstream's server reflection service mean.
use vstd::prelude::*;

use crate::error::Error;
use crate::metadata::MethodDescriptor;

verus! {

/// One reply of the reflection stream, as far as this library reads it.
#[derive(Debug, Clone)]
pub enum ReflectionReply {
    /// The names of the services that the upstream offers.
    ListServices(Vec<String>),
    /// Serialized protobuf file descriptors.
    FileDescriptors(Vec<Vec<u8>>),
    /// A reply of any other kind.
    Other,
}

/// The method descriptors of each service that a serialized protobuf file
/// descriptor declares, in order, or `None` where the bytes do not decode.
pub uninterp spec fn file_services(b: Seq<u8>) -> Option<
    Seq<Seq<(Option<Seq<char>>, Option<bool>, Option<bool>)>>,
>;

/// The descriptors of each service, as their views.
pub open spec fn services_view(s: Seq<Vec<MethodDescriptor>>) -> Seq<
    Seq<(Option<Seq<char>>, Option<bool>, Option<bool>)>,
> {
    s.map_values(|ms: Vec<MethodDescriptor>| ms@.map_values(|m: MethodDescriptor| m@))
}

#[verifier::external_type_specification]
#[verifier::external_body]
pub struct ExProstDecodeError(prost::DecodeError);

/// Relies on `prost::Message::decode` for `prost_types::FileDescriptorProto`:
/// the services of the file, each with its methods' name and streaming flags.
#[verifier::external_body]
fn decode_file_descriptor(b: &Vec<u8>) -> (r: Result<Vec<Vec<MethodDescriptor>>, prost::DecodeError>)
    ensures
        match r {
            Ok(s) => file_services(b@) == Some(services_view(s@)),
            Err(_) => file_services(b@) is None,
        },
{
    let file = <prost_types::FileDescriptorProto as prost::Message>::decode(b.as_slice())?;
    Ok(file.service.into_iter().map(|s| s.method.into_iter().map(|m| MethodDescriptor {
        name: m.name,
        client_streaming: m.client_streaming,
        server_streaming: m.server_streaming,
    }).collect()).collect())
}

/// The service names of the reply to a `ListServices` request; `None` stands
/// for a stream that closed, or a reply without a message.
pub fn services_of_reply(reply: Option<ReflectionReply>) -> (r: Result<Vec<String>, Error>)
    ensures
        match reply {
            None => r == Err::<Vec<String>, Error>(Error::NoResponse),
            Some(ReflectionReply::ListServices(names)) => r == Ok::<Vec<String>, Error>(names),
            Some(_) => r == Err::<Vec<String>, Error>(Error::NoServices),
        },
{
    match reply {
        None => Err(Error::NoResponse),
        Some(ReflectionReply::ListServices(names)) => Ok(names),
        Some(_) => Err(Error::NoServices),
    }
}

/// What the reply to a `FileContainingSymbol` request says of a service's
/// methods, as views.
pub open spec fn reply_methods(reply: Option<ReflectionReply>) -> Result<
    Seq<(Option<Seq<char>>, Option<bool>, Option<bool>)>,
    Error,
> {
    match reply {
        None => Err(Error::NoResponse),
        Some(ReflectionReply::FileDescriptors(files)) => if files@.len() == 0 {
            Err(Error::ProstDecode)
        } else {
            match file_services(files@[0]@) {
                None => Err(Error::ProstDecode),
                Some(services) => if services.len() == 0 {
                    Err(Error::ProstDecode)
                } else {
                    Ok(services[0])
                },
            }
        },
        Some(_) => Ok(Seq::empty()),
    }
}

/// The methods of the first service of the first file descriptor of a
/// `FileContainingSymbol` reply; a reply of another kind names no methods.
/// A reply without descriptors, or whose descriptor declares no service or
/// does not decode, is `ProstDecode`.
pub fn methods_of_reply(reply: Option<ReflectionReply>) -> (r: Result<Vec<MethodDescriptor>, Error>)
    ensures
        match reply_methods(reply) {
            Ok(ms) => (r matches Ok(v) && v@.map_values(|m: MethodDescriptor| m@) == ms),
            Err(e) => r == Err::<Vec<MethodDescriptor>, Error>(e),
        },
{
    match reply {
        None => Err(Error::NoResponse),
        Some(ReflectionReply::FileDescriptors(files)) => {
            if files.len() == 0 {
                return Err(Error::ProstDecode);
            }
            match decode_file_descriptor(&files[0]) {
                Err(_) => Err(Error::ProstDecode),
                Ok(mut services) => {
                    if services.len() == 0 {
                        Err(Error::ProstDecode)
                    } else {
                        let first = services.swap_remove(0);
                        Ok(first)
                    }
                },
            }
        },
        Some(_) => {
            let none: Vec<MethodDescriptor> = Vec::new();
            assert(none@.map_values(|m: MethodDescriptor| m@) =~= Seq::empty());
            Ok(none)
        },
    }
}

} // verus!
