//! References to objects held by a storage backend.
//!
//! A storage backend (the code that talks to a bucket over the network lives
//! outside this library) identifies each stored artifact by bucket, key and a
//! short protocol tag such as `s3` or `gs`.  The backend stamps every listing
//! entry with its own tag through [`ObjectRef::new`]; the tag only feeds the
//! display URL and has no effect on wire behaviour.

use vstd::prelude::*;
use vstd::string::StringExecFns;
use vstd::string::StrSliceExecFns;

verus! {

/// Identifies one stored artifact. Immutable, freely copyable value.
#[derive(Debug)]
pub struct ObjectRef {
    pub bucket: String,
    pub key: String,
    pub protocol: String,
}

/// The mathematical value of an [`ObjectRef`]: its three fields as
/// character sequences.
pub struct ObjectRefView {
    pub bucket: Seq<char>,
    pub key: Seq<char>,
    pub protocol: Seq<char>,
}

impl View for ObjectRef {
    type V = ObjectRefView;

    open spec fn view(&self) -> ObjectRefView {
        ObjectRefView { bucket: self.bucket@, key: self.key@, protocol: self.protocol@ }
    }
}

/// The canonical display URL of an object: `protocol://bucket/key`.
pub open spec fn object_url(o: ObjectRefView) -> Seq<char> {
    o.protocol + "://"@ + o.bucket + "/"@ + o.key
}

impl Clone for ObjectRef {
    /// A copy denotes the same object.
    fn clone(&self) -> (r: Self)
        ensures
            r@ == self@,
    {
        ObjectRef {
            bucket: self.bucket.clone(),
            key: self.key.clone(),
            protocol: self.protocol.clone(),
        }
    }
}

impl ObjectRef {
    /// Stamps a reference with the protocol tag of the backend that produced
    /// it; only a storage backend knows its own tag.
    pub fn new(bucket: &str, key: &str, protocol: &str) -> (r: ObjectRef)
        ensures
            r@.bucket == bucket@,
            r@.key == key@,
            r@.protocol == protocol@,
    {
        ObjectRef {
            bucket: bucket.to_owned(),
            key: key.to_owned(),
            protocol: protocol.to_owned(),
        }
    }

    /// Renders the canonical URL `protocol://bucket/key` for logging and
    /// display.
    pub fn get_object_url(&self) -> (r: String)
        ensures
            r@ == object_url(self@),
    {
        let mut url = self.protocol.clone();
        url.append("://");
        url.append(self.bucket.as_str());
        url.append("/");
        url.append(self.key.as_str());
        url
    }
}

} // verus!
