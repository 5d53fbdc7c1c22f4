//! The ways in which extraction and the naming of download targets fail.

use vstd::prelude::*;
use vstd::string::StringExecFns;

verus! {

/// Why no list of resource URLs could be produced.
#[derive(Debug, Clone, PartialEq, Eq)]
pub enum ExtractError {
    /// The address of the page is not a valid absolute URL.
    Configuration,
    /// No link of the page survived resolution and the extension filter. Holds
    /// the extensions that were asked for.
    NoMatchingResources { extensions: Vec<String> },
}

/// Why no local path could be derived for a resource.
#[derive(Debug, Clone, Copy, PartialEq, Eq)]
pub enum DestinationError {
    /// The resource's address is not a valid absolute URL.
    InvalidUrl,
    /// The directory joined with the file name is not valid Unicode text.
    InvalidPath,
}

/// What an `ExtractError` holds, with its strings as sequences of characters.
pub enum ExtractErrorView {
    Configuration,
    NoMatchingResources { extensions: Seq<Seq<char>> },
}

impl View for ExtractError {
    type V = ExtractErrorView;

    open spec fn view(&self) -> ExtractErrorView {
        match self {
            ExtractError::Configuration => ExtractErrorView::Configuration,
            ExtractError::NoMatchingResources { extensions } => {
                ExtractErrorView::NoMatchingResources { extensions: extensions.deep_view() }
            },
        }
    }
}

/// The names separated by a comma and a space.
pub open spec fn comma_separated(names: Seq<Seq<char>>) -> Seq<char>
    decreases names.len(),
{
    if names.len() == 0 {
        Seq::empty()
    } else if names.len() == 1 {
        names[0]
    } else {
        comma_separated(names.drop_last()) + ", "@ + names.last()
    }
}

/// How a filter is named in a message: its members, or `none` for the empty
/// filter.
pub open spec fn filter_description(extensions: Seq<Seq<char>>) -> Seq<char> {
    if extensions.len() == 0 {
        "none"@
    } else {
        comma_separated(extensions)
    }
}

/// The text of the message for an `ExtractError`.
pub open spec fn extract_message(error: ExtractErrorView) -> Seq<char> {
    match error {
        ExtractErrorView::Configuration => "Invalid base URL"@,
        ExtractErrorView::NoMatchingResources { extensions } => {
            "No files found with specified extensions: "@ + filter_description(extensions)
        },
    }
}

/// The members of `extensions` separated by a comma and a space, or `none`
/// where there are none.
pub fn describe_filter(extensions: &Vec<String>) -> (description: String)
    ensures
        description@ == filter_description(extensions.deep_view()),
{
    if extensions.len() == 0 {
        return String::from_str("none");
    }
    let ghost names = extensions.deep_view();
    let mut description = extensions[0].clone();
    assert(names.take(1) =~= seq![names[0]]);
    let mut i: usize = 1;
    while i < extensions.len()
        invariant
            1 <= i <= extensions.len(),
            names == extensions.deep_view(),
            description@ == comma_separated(names.take(i as int)),
        decreases extensions.len() - i,
    {
        proof {
            let next = names.take(i + 1);
            assert(next.drop_last() =~= names.take(i as int));
            assert(next.last() == extensions@[i as int]@);
        }
        description.append(", ");
        description.append(extensions[i].as_str());
        i = i + 1;
    }
    assert(names.take(i as int) =~= names);
    description
}

impl ExtractError {
    /// The message for this error; a failed filter is named by its extensions.
    pub fn message(&self) -> (text: String)
        ensures
            text@ == extract_message(self@),
    {
        match self {
            ExtractError::Configuration => String::from_str("Invalid base URL"),
            ExtractError::NoMatchingResources { extensions } => {
                let mut text = String::from_str("No files found with specified extensions: ");
                let names = describe_filter(extensions);
                text.append(names.as_str());
                text
            },
        }
    }
}

impl DestinationError {
    /// The message for this error.
    pub fn message(&self) -> (text: String)
        ensures
            text@ == (match *self {
                DestinationError::InvalidUrl => "Failed to parse URL"@,
                DestinationError::InvalidPath => "Failed to construct file path"@,
            }),
    {
        match self {
            DestinationError::InvalidUrl => String::from_str("Failed to parse URL"),
            DestinationError::InvalidPath => String::from_str("Failed to construct file path"),
        }
    }
}

} // verus!
