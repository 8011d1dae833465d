use vstd::prelude::*;
use vstd::string::StringExecFns;

verus! {

#[verifier::external_type_specification]
#[verifier::external_body]
pub struct ExIoError(std::io::Error);

/// Why a MusicXML document could not be read.
#[derive(Debug)]
pub enum MusicXmlError {
    /// Reading the file failed.
    Io(std::io::Error),
    /// The text is not well-formed XML.
    Xml(roxmltree::Error),
    /// Well-formed XML that this reader does not handle (message in English).
    Unsupported(String),
}

/// `Display` of a `std::io::Error`. Nothing is claimed of the text: it may
/// carry the operating system's own message.
#[verifier::external_body]
fn io_error_text(e: &std::io::Error) -> String {
    format!("{e}")
}

/// `Display` of a `roxmltree::Error` (its kind and text position). Nothing
/// is claimed of the text.
#[verifier::external_body]
fn xml_error_text(e: &roxmltree::Error) -> String {
    format!("{e}")
}

impl MusicXmlError {
    /// The message shown for the error: its kind, then the cause.
    pub fn message(&self) -> (s: String)
        ensures
            match *self {
                MusicXmlError::Io(_) => exists|t: Seq<char>| s@ == "I/O error: "@ + t,
                MusicXmlError::Xml(_) => exists|t: Seq<char>| s@ == "XML parse error: "@ + t,
                MusicXmlError::Unsupported(m) => s@ == "Unsupported: "@ + m@,
            },
    {
        match self {
            MusicXmlError::Io(e) => {
                let mut s = String::from_str("I/O error: ");
                let t = io_error_text(e);
                s.append(t.as_str());
                s
            },
            MusicXmlError::Xml(e) => {
                let mut s = String::from_str("XML parse error: ");
                let t = xml_error_text(e);
                s.append(t.as_str());
                s
            },
            MusicXmlError::Unsupported(m) => {
                let mut s = String::from_str("Unsupported: ");
                s.append(m.as_str());
                s
            },
        }
    }
}

impl From<std::io::Error> for MusicXmlError {
    fn from(e: std::io::Error) -> (r: Self) {
        MusicXmlError::Io(e)
    }
}

impl vstd::std_specs::convert::FromSpecImpl<std::io::Error> for MusicXmlError {
    open spec fn obeys_from_spec() -> bool {
        true
    }

    open spec fn from_spec(e: std::io::Error) -> Self {
        MusicXmlError::Io(e)
    }
}

impl From<roxmltree::Error> for MusicXmlError {
    fn from(e: roxmltree::Error) -> (r: Self) {
        MusicXmlError::Xml(e)
    }
}

impl vstd::std_specs::convert::FromSpecImpl<roxmltree::Error> for MusicXmlError {
    open spec fn obeys_from_spec() -> bool {
        true
    }

    open spec fn from_spec(e: roxmltree::Error) -> Self {
        MusicXmlError::Xml(e)
    }
}

} // verus!
