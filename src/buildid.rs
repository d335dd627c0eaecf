//! Build ids, as raw bytes or as hex text.
use std::borrow::Cow;

use vstd::prelude::*;
use vstd::std_specs::convert::IntoSpec;

use crate::util::format_build_id;
use crate::util::hex_of;

verus! {

/// The (GNU) build id that compilers place in executables and that
/// debuginfod servers index debug information by.
#[derive(Debug)]
pub enum BuildId<'id> {
    /// The raw bytes of a build id, as read from an ELF note.
    RawBytes(Cow<'id, [u8]>),
    /// A build id already written as hex text; it is used as it stands.
    Formatted(Cow<'id, str>),
}

impl<'id> BuildId<'id> {
    /// The text that names this build id towards servers and in the cache:
    /// lower-case hex of the raw bytes, or the pre-formatted text unchanged.
    pub open spec fn canonical_hex(&self) -> Seq<char> {
        match self {
            BuildId::RawBytes(bytes) => hex_of(bytes@),
            BuildId::Formatted(text) => text@,
        }
    }

    /// Creates a `BuildId` from text that already holds the hex form.
    pub fn formatted<B>(build_id: B) -> (r: Self)
        where
            B: Into<Cow<'id, str>>,
        ensures
            r is Formatted,
            B::obeys_into_spec() ==> r == BuildId::<'id>::Formatted(build_id.into_spec()),
    {
        BuildId::Formatted(build_id.into())
    }

    /// Creates a `BuildId` from its raw bytes.
    pub fn raw<B>(build_id: B) -> (r: Self)
        where
            B: Into<Cow<'id, [u8]>>,
        ensures
            r is RawBytes,
            B::obeys_into_spec() ==> r == BuildId::<'id>::RawBytes(build_id.into_spec()),
    {
        BuildId::RawBytes(build_id.into())
    }

    /// Returns the hex text of this build id: raw bytes are rendered, and
    /// pre-formatted text is borrowed as it stands.
    pub fn format(&self) -> (r: Cow<'_, str>)
        ensures
            r@ == self.canonical_hex(),
            self is Formatted ==> r is Borrowed,
    {
        match self {
            BuildId::RawBytes(bytes) => {
                let b: &[u8] = match bytes {
                    Cow::Borrowed(b) => b,
                    Cow::Owned(v) => v.as_slice(),
                };
                Cow::Owned(format_build_id(b))
            },
            BuildId::Formatted(text) => match text {
                Cow::Borrowed(t) => Cow::Borrowed(t),
                Cow::Owned(t) => Cow::Borrowed(t.as_str()),
            },
        }
    }

    /// Returns the hex text of this build id as an owned string.
    pub fn to_string(&self) -> (r: String)
        ensures
            r@ == self.canonical_hex(),
    {
        match self {
            BuildId::RawBytes(Cow::Borrowed(b)) => format_build_id(b),
            BuildId::RawBytes(Cow::Owned(v)) => format_build_id(v.as_slice()),
            BuildId::Formatted(Cow::Borrowed(t)) => (*t).to_owned(),
            BuildId::Formatted(Cow::Owned(t)) => t.clone(),
        }
    }
}

} // verus!
