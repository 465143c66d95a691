//! Unified source enum covering both USB and RTSP cameras.

use crate::types::{Credentials, Device};
use std::hash::{Hash, Hasher};
use vstd::prelude::*;

verus! {

/// Describes where a stream's frames come from.
///
/// Two sources compare equal when they describe the same logical stream: USB by device
/// id, RTSP by URL and credentials.
#[derive(Debug)]
pub enum CameraSource {
    /// A USB / built-in camera enumerated via [`crate::devices`].
    Usb(Device),
    /// An RTSP network stream.
    Rtsp {
        /// `rtsp://host:port/path` URL.
        url: String,
        /// Optional credentials for authenticated streams.
        credentials: Option<Credentials>,
    },
}

/// What tells one logical stream from another.
pub enum Identity {
    /// A device, by its id.
    Usb(Seq<char>),
    /// A network stream, by its URL and its username and password.
    Rtsp(Seq<char>, Option<(Seq<char>, Seq<char>)>),
}

/// The username and password of a source, as texts.
pub open spec fn login(credentials: Option<Credentials>) -> Option<(Seq<char>, Seq<char>)> {
    match credentials {
        None => None,
        Some(c) => Some((c.username@, c.password@)),
    }
}

impl View for CameraSource {
    type V = Identity;

    open spec fn view(&self) -> Identity {
        match self {
            CameraSource::Usb(device) => Identity::Usb(device.id@),
            CameraSource::Rtsp { url, credentials } => Identity::Rtsp(url@, login(*credentials)),
        }
    }
}

impl Clone for CameraSource {
    fn clone(&self) -> (copy: CameraSource)
        ensures
            copy == *self,
    {
        match self {
            CameraSource::Usb(device) => CameraSource::Usb(device.clone()),
            CameraSource::Rtsp { url, credentials } => CameraSource::Rtsp {
                url: url.clone(),
                credentials: match credentials {
                    None => None,
                    Some(c) => Some(c.clone()),
                },
            },
        }
    }
}

fn credentials_eq(a: &Option<Credentials>, b: &Option<Credentials>) -> (same: bool)
    ensures
        same == (login(*a) == login(*b)),
{
    match (a, b) {
        (None, None) => true,
        (Some(a), Some(b)) => a.username == b.username && a.password == b.password,
        _ => false,
    }
}

impl PartialEq for CameraSource {
    fn eq(&self, other: &Self) -> (same: bool) {
        match (self, other) {
            (CameraSource::Usb(a), CameraSource::Usb(b)) => a.id.0 == b.id.0,
            (
                CameraSource::Rtsp { url: a_url, credentials: a_login },
                CameraSource::Rtsp { url: b_url, credentials: b_login },
            ) => *a_url == *b_url && credentials_eq(a_login, b_login),
            _ => false,
        }
    }
}

impl vstd::std_specs::cmp::PartialEqSpecImpl for CameraSource {
    open spec fn obeys_eq_spec() -> bool {
        true
    }

    open spec fn eq_spec(&self, other: &Self) -> bool {
        self@ == other@
    }
}

impl Eq for CameraSource {

}

/// The texts that make up an identity, with the kind of stream first.
pub open spec fn parts(identity: Identity) -> Seq<Seq<char>> {
    match identity {
        Identity::Usb(id) => seq!["usb"@, id],
        Identity::Rtsp(url, None) => seq!["rtsp"@, url],
        Identity::Rtsp(url, Some((username, password))) => seq![
            "rtsp with login"@,
            url,
            username,
            password,
        ],
    }
}

/// The texts of a list of strings.
pub open spec fn texts(strings: Seq<String>) -> Seq<Seq<char>> {
    strings.map_values(|text: String| text@)
}

/// The texts that tell this source from every other, with the kind of stream first. A
/// source is hashed by these and nothing else.
pub fn identity_parts(source: &CameraSource) -> (strings: Vec<String>)
    ensures
        texts(strings@) == parts(source@),
{
    let mut strings: Vec<String> = Vec::new();
    match source {
        CameraSource::Usb(device) => {
            strings.push("usb".to_owned());
            strings.push(device.id.0.clone());
        },
        CameraSource::Rtsp { url, credentials: None } => {
            strings.push("rtsp".to_owned());
            strings.push(url.clone());
        },
        CameraSource::Rtsp { url, credentials: Some(c) } => {
            strings.push("rtsp with login".to_owned());
            strings.push(url.clone());
            strings.push(c.username.clone());
            strings.push(c.password.clone());
        },
    }
    assert(texts(strings@) =~= parts(source@));
    strings
}

/// `String::hash`: feeds the string to the hasher. What a hasher makes of it is its own
/// affair, so nothing is claimed of the state.
#[verifier::external_body]
pub fn feed<H: Hasher>(string: &String, state: &mut H) {
    string.hash(state)
}

impl Hash for CameraSource {
    /// Feeds the source's [`parts`] to the hasher, one after the other, and nothing else.
    fn hash<H: Hasher>(&self, state: &mut H)
        ensures
            exists|states: Seq<H>|
                {
                    &&& #[trigger] states.len() == parts(self@).len() + 1
                    &&& states[0] == *old(state)
                    &&& states.last() == *final(state)
                    &&& forall|i: int|
                        0 <= i < parts(self@).len() ==> exists|text: &String, inner: &mut H|
                            text@ == #[trigger] parts(self@)[i] && *inner == states[i] && *final(inner)
                                == states[i + 1] && #[trigger] call_ensures(
                                feed::<H>,
                                (text, inner),
                                (),
                            )
                },
    {
        let strings = identity_parts(self);
        let ghost mut states: Seq<H> = seq![*state];
        let mut i: usize = 0;
        while i < strings.len()
            invariant
                i <= strings.len(),
                texts(strings@) == parts(self@),
                states.len() == i + 1,
                states[0] == *old(state),
                states.last() == *state,
                forall|j: int|
                    0 <= j < i ==> exists|text: &String, inner: &mut H|
                        text@ == #[trigger] parts(self@)[j] && *inner == states[j] && *final(inner)
                            == states[j + 1] && #[trigger] call_ensures(
                            feed::<H>,
                            (text, inner),
                            (),
                        ),
            decreases strings.len() - i,
        {
            feed(&strings[i], state);
            proof {
                states = states.push(*state);
            }
            i = i + 1;
        }
    }
}

/// Produce a human-readable label for a source: device name for USB, URL
/// for RTSP. Useful for status lines and toasts.
pub fn source_label(source: &CameraSource) -> (label: String)
    ensures
        label@ == (match source {
            CameraSource::Usb(device) => device.name@,
            CameraSource::Rtsp { url, .. } => url@,
        }),
{
    match source {
        CameraSource::Usb(device) => device.name.clone(),
        CameraSource::Rtsp { url, .. } => url.clone(),
    }
}

/// Two sources are equal exactly where they are identified by the same texts, so equal
/// sources hash alike and unequal ones are fed to the hasher differently.
pub proof fn equal_sources_have_equal_parts(left: CameraSource, right: CameraSource)
    ensures
        left@ == right@ <==> parts(left@) == parts(right@),
{
    reveal_strlit("usb");
    reveal_strlit("rtsp");
    reveal_strlit("rtsp with login");
    let a = parts(left@);
    let b = parts(right@);
    if a == b {
        assert(a[0].len() == b[0].len());
        assert(a[1] == b[1]);
        if a.len() == 4 {
            assert(a[2] == b[2] && a[3] == b[3]);
        }
    }
}

/// Equality of sources is an equivalence.
pub proof fn source_equality_is_an_equivalence(a: CameraSource, b: CameraSource, c: CameraSource)
    ensures
        vstd::std_specs::cmp::PartialEqSpec::eq_spec(&a, &a),
        vstd::std_specs::cmp::PartialEqSpec::eq_spec(&a, &b)
            == vstd::std_specs::cmp::PartialEqSpec::eq_spec(&b, &a),
        vstd::std_specs::cmp::PartialEqSpec::eq_spec(&a, &b)
            && vstd::std_specs::cmp::PartialEqSpec::eq_spec(&b, &c)
            ==> vstd::std_specs::cmp::PartialEqSpec::eq_spec(&a, &c),
{
}

} // verus!
