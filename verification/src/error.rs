use vstd::prelude::*;

verus! {

/// `String::push_str` from std: the text of `string` is appended to `s`, and
/// nothing else about `s` changes.
pub assume_specification[ String::push_str ](s: &mut String, string: &str)
    ensures
        final(s)@ == old(s)@ + string@,
;

/// What can go wrong while fetching records or aggregating them.
///
/// `Http`, `Json` and `HexGrid` carry the message of the failure that the
/// transport, the JSON codec or the grid resolver reported.
#[derive(Debug)]
pub enum InfraHexError {
    Http(String),
    Json(String),
    Api(String),
    Config(String),
    Geometry(String),
    HexGrid(String),
}

impl InfraHexError {
    /// The message that the error carries.
    pub open spec fn detail(self) -> Seq<char> {
        match self {
            InfraHexError::Http(m) => m@,
            InfraHexError::Json(m) => m@,
            InfraHexError::Api(m) => m@,
            InfraHexError::Config(m) => m@,
            InfraHexError::Geometry(m) => m@,
            InfraHexError::HexGrid(m) => m@,
        }
    }

    /// The fixed words that introduce each kind of error.
    pub open spec fn prefix(self) -> Seq<char> {
        match self {
            InfraHexError::Http(_) => "HTTP request failed: "@,
            InfraHexError::Json(_) => "JSON parsing failed: "@,
            InfraHexError::Api(_) => "API error: "@,
            InfraHexError::Config(_) => "Config error: "@,
            InfraHexError::Geometry(_) => "Geometry error: "@,
            InfraHexError::HexGrid(_) => "Hex grid error: "@,
        }
    }

    /// The error as a reader sees it: the prefix followed by the message.
    pub open spec fn rendered(self) -> Seq<char> {
        self.prefix() + self.detail()
    }

    /// Renders the error for a reader.
    pub fn message(&self) -> (text: String)
        ensures
            text@ == self.rendered(),
    {
        let mut text = match self {
            InfraHexError::Http(_) => "HTTP request failed: ".to_owned(),
            InfraHexError::Json(_) => "JSON parsing failed: ".to_owned(),
            InfraHexError::Api(_) => "API error: ".to_owned(),
            InfraHexError::Config(_) => "Config error: ".to_owned(),
            InfraHexError::Geometry(_) => "Geometry error: ".to_owned(),
            InfraHexError::HexGrid(_) => "Hex grid error: ".to_owned(),
        };
        match self {
            InfraHexError::Http(m) => text.push_str(m.as_str()),
            InfraHexError::Json(m) => text.push_str(m.as_str()),
            InfraHexError::Api(m) => text.push_str(m.as_str()),
            InfraHexError::Config(m) => text.push_str(m.as_str()),
            InfraHexError::Geometry(m) => text.push_str(m.as_str()),
            InfraHexError::HexGrid(m) => text.push_str(m.as_str()),
        }
        text
    }
}

} // verus!
