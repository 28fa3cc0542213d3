//! The error types of the library, with the exact text each one surfaces.
//! A structural selector that cannot be parsed and a renderer invoked on the
//! wrong item kind are programming defects; a missing element and a path that
//! resolves to nothing are conditions of the input.

use vstd::prelude::*;
use crate::text::{append_str, chars_string, strings_view};

verus! {

/// An error of the Markdown renderers: the item handed to a renderer was not
/// of the kind the renderer is for.
#[derive(Debug)]
pub enum MarkdownError {
    ItemNotFound(String),
}

/// An error of the build pass.
#[derive(Debug)]
pub enum BuildError {
    /// The documentation toolchain could not be run for a crate.
    CargoDocExecFailed { crate_name: String, output: String },
    /// The project-metadata query could not be run.
    CargoMetadataExecFailed { output: String },
    /// The requested crate is not an installed dependency.
    InvalidCrateName { requested: String, available: Vec<String> },
    /// The output directory could not be created.
    OutputDirCreationFailed { path: String, source: String },
    /// A file could not be read.
    FileReadFailed { path: String, source: String },
    /// The toolchain's output named no generated documentation.
    CargoDocOutputParseFailed { output_preview: String },
    /// The documentation index file was not found.
    DocIndexNotFound { path: String, source: String },
    /// A Markdown file could not be written.
    MarkdownWriteFailed { path: String, source: String },
}

/// An error of the lookup commands.
#[derive(Debug)]
pub enum OpenError {
    /// The documentation index file was not found.
    DocIndexNotFound { path: String, source: String },
    /// The caller-supplied item path is malformed.
    InvalidItemPath { item_path: String },
    /// The caller handed an item path where only a crate name is accepted.
    InvalidCrateName { crate_name: String },
    /// The caller handed an empty crate name.
    EmptyCrateName,
    /// The Markdown file for an item was not found.
    MarkdownNotFound { path: String, source: String },
    /// The requested item path has no mapping.
    ItemPathResolutionFailed { item_path: String, crate_name: String },
}

/// The top-level error type.
#[derive(Debug)]
pub enum Error {
    Build(BuildError),
    Open(OpenError),
    /// A structural selector string is malformed: a programming defect.
    HtmlSelectorParseFailed { selector: String, error: String },
    /// An expected structural element is absent; `detail` carries the
    /// surfaced explanation where one is called for.
    HtmlElementNotFound { selector: String, detail: String },
    Markdown(MarkdownError),
}

/// The strings joined with a comma and a space between each two.
pub open spec fn spec_join_comma(v: Seq<Seq<char>>) -> Seq<char>
    decreases v.len(),
{
    if v.len() == 0 {
        Seq::<char>::empty()
    } else if v.len() == 1 {
        v[0]
    } else {
        v[0] + ", "@ + spec_join_comma(v.drop_first())
    }
}

/// Joins strings with `", "` between each two.
pub fn join_comma(v: &Vec<String>) -> (r: String)
    ensures
        r@ == spec_join_comma(strings_view(v@)),
{
    let mut out: Vec<char> = Vec::new();
    join_comma_from(v, 0, &mut out);
    proof {
        assert(strings_view(v@).skip(0) =~= strings_view(v@));
    }
    chars_string(&out)
}

fn join_comma_from(v: &Vec<String>, i: usize, out: &mut Vec<char>)
    requires
        i <= v@.len(),
    ensures
        final(out)@ == old(out)@ + spec_join_comma(strings_view(v@).skip(i as int)),
    decreases v@.len() - i,
{
    let ghost t = strings_view(v@).skip(i as int);
    if i == v.len() {
        assert(out@ =~= out@ + spec_join_comma(t));
        return ;
    }
    proof {
        assert(t[0] == v@[i as int]@);
        assert(t.drop_first() =~= strings_view(v@).skip(i + 1));
    }
    append_str(out, v[i].as_str());
    if i + 1 < v.len() {
        append_str(out, ", ");
        join_comma_from(v, i + 1, out);
        assert(out@ =~= old(out)@ + spec_join_comma(t));
    } else {
        assert(t.len() == 1);
        assert(out@ =~= old(out)@ + spec_join_comma(t));
    }
}

impl MarkdownError {
    /// The text this error surfaces.
    pub open spec fn spec_message(self) -> Seq<char> {
        match self {
            MarkdownError::ItemNotFound(what) => what@,
        }
    }

    pub fn message(&self) -> (r: String)
        ensures
            r@ == self.spec_message(),
    {
        match self {
            MarkdownError::ItemNotFound(what) => {
                let mut out: Vec<char> = Vec::new();
                append_str(&mut out, what.as_str());
                chars_string(&out)
            },
        }
    }
}

impl BuildError {
    /// The text this error surfaces.
    pub open spec fn spec_message(self) -> Seq<char> {
        match self {
            BuildError::CargoDocExecFailed { crate_name, output } => {
                "Failed to execute cargo doc for crate '"@ + crate_name@ + "':\n"@ + output@
            },
            BuildError::CargoMetadataExecFailed { output } => {
                "Failed to execute cargo metadata command:\n"@ + output@
            },
            BuildError::InvalidCrateName { requested, available } => {
                "Crate '"@ + requested@ + "' is not an installed dependency.\n\nAvailable crates: "@
                    + spec_join_comma(strings_view(available@))
                    + "\n\nOnly installed dependencies can be built. Add the crate to Cargo.toml as a dependency first."@
            },
            BuildError::OutputDirCreationFailed { path, source } => {
                "Failed to create output directory '"@ + path@ + "': "@ + source@
            },
            BuildError::FileReadFailed { path, source } => {
                "Failed to read file '"@ + path@ + "': "@ + source@
            },
            BuildError::CargoDocOutputParseFailed { output_preview } => {
                "Failed to parse cargo doc output - could not find 'Generated' line.\nOutput preview:\n"@
                    + output_preview@
            },
            BuildError::DocIndexNotFound { path, source } => {
                "Documentation index file '"@ + path@ + "' not found: "@ + source@
            },
            BuildError::MarkdownWriteFailed { path, source } => {
                "Failed to write markdown file '"@ + path@ + "': "@ + source@
            },
        }
    }

    pub fn message(&self) -> (r: String)
        ensures
            r@ == self.spec_message(),
    {
        let mut out: Vec<char> = Vec::new();
        match self {
            BuildError::CargoDocExecFailed { crate_name, output } => {
                append_str(&mut out, "Failed to execute cargo doc for crate '");
                append_str(&mut out, crate_name.as_str());
                append_str(&mut out, "':\n");
                append_str(&mut out, output.as_str());
            },
            BuildError::CargoMetadataExecFailed { output } => {
                append_str(&mut out, "Failed to execute cargo metadata command:\n");
                append_str(&mut out, output.as_str());
            },
            BuildError::InvalidCrateName { requested, available } => {
                append_str(&mut out, "Crate '");
                append_str(&mut out, requested.as_str());
                append_str(&mut out, "' is not an installed dependency.\n\nAvailable crates: ");
                let joined = join_comma(available);
                append_str(&mut out, joined.as_str());
                append_str(
                    &mut out,
                    "\n\nOnly installed dependencies can be built. Add the crate to Cargo.toml as a dependency first.",
                );
            },
            BuildError::OutputDirCreationFailed { path, source } => {
                append_str(&mut out, "Failed to create output directory '");
                append_str(&mut out, path.as_str());
                append_str(&mut out, "': ");
                append_str(&mut out, source.as_str());
            },
            BuildError::FileReadFailed { path, source } => {
                append_str(&mut out, "Failed to read file '");
                append_str(&mut out, path.as_str());
                append_str(&mut out, "': ");
                append_str(&mut out, source.as_str());
            },
            BuildError::CargoDocOutputParseFailed { output_preview } => {
                append_str(
                    &mut out,
                    "Failed to parse cargo doc output - could not find 'Generated' line.\nOutput preview:\n",
                );
                append_str(&mut out, output_preview.as_str());
            },
            BuildError::DocIndexNotFound { path, source } => {
                append_str(&mut out, "Documentation index file '");
                append_str(&mut out, path.as_str());
                append_str(&mut out, "' not found: ");
                append_str(&mut out, source.as_str());
            },
            BuildError::MarkdownWriteFailed { path, source } => {
                append_str(&mut out, "Failed to write markdown file '");
                append_str(&mut out, path.as_str());
                append_str(&mut out, "': ");
                append_str(&mut out, source.as_str());
            },
        }
        chars_string(&out)
    }
}

impl OpenError {
    /// The text this error surfaces. A failed resolution suggests rebuilding;
    /// a malformed path names the format that is expected.
    pub open spec fn spec_message(self) -> Seq<char> {
        match self {
            OpenError::DocIndexNotFound { path, source } => {
                "Documentation index file '"@ + path@ + "' not found: "@ + source@
            },
            OpenError::InvalidItemPath { item_path } => {
                "invalid item path '"@ + item_path@
                    + "'. Expected format: <crate> or <crate>::<item> (e.g., 'serde' or 'serde::Error')."@
            },
            OpenError::InvalidCrateName { crate_name } => {
                "the list command only accepts crate names. Use 'cargo txt show "@ + crate_name@
                    + "' to view specific items."@
            },
            OpenError::EmptyCrateName => "crate name cannot be empty"@,
            OpenError::MarkdownNotFound { path, source } => {
                "Markdown file '"@ + path@ + "' not found: "@ + source@
            },
            OpenError::ItemPathResolutionFailed { item_path, crate_name } => {
                "could not resolve item path '"@ + item_path@
                    + "'. Please ensure the item exists in the crate and try: `cargo txt build "@
                    + crate_name@ + "`"@
            },
        }
    }

    pub fn message(&self) -> (r: String)
        ensures
            r@ == self.spec_message(),
    {
        let mut out: Vec<char> = Vec::new();
        match self {
            OpenError::DocIndexNotFound { path, source } => {
                append_str(&mut out, "Documentation index file '");
                append_str(&mut out, path.as_str());
                append_str(&mut out, "' not found: ");
                append_str(&mut out, source.as_str());
            },
            OpenError::InvalidItemPath { item_path } => {
                append_str(&mut out, "invalid item path '");
                append_str(&mut out, item_path.as_str());
                append_str(
                    &mut out,
                    "'. Expected format: <crate> or <crate>::<item> (e.g., 'serde' or 'serde::Error').",
                );
            },
            OpenError::InvalidCrateName { crate_name } => {
                append_str(&mut out, "the list command only accepts crate names. Use 'cargo txt show ");
                append_str(&mut out, crate_name.as_str());
                append_str(&mut out, "' to view specific items.");
            },
            OpenError::EmptyCrateName => {
                append_str(&mut out, "crate name cannot be empty");
            },
            OpenError::MarkdownNotFound { path, source } => {
                append_str(&mut out, "Markdown file '");
                append_str(&mut out, path.as_str());
                append_str(&mut out, "' not found: ");
                append_str(&mut out, source.as_str());
            },
            OpenError::ItemPathResolutionFailed { item_path, crate_name } => {
                append_str(&mut out, "could not resolve item path '");
                append_str(&mut out, item_path.as_str());
                append_str(
                    &mut out,
                    "'. Please ensure the item exists in the crate and try: `cargo txt build ",
                );
                append_str(&mut out, crate_name.as_str());
                append_str(&mut out, "`");
            },
        }
        chars_string(&out)
    }
}

impl Error {
    /// The text this error surfaces.
    pub open spec fn spec_message(self) -> Seq<char> {
        match self {
            Error::Build(e) => e.spec_message(),
            Error::Open(e) => e.spec_message(),
            Error::HtmlSelectorParseFailed { selector, error } => {
                "Failed to parse selector '"@ + selector@ + "': "@ + error@
            },
            Error::HtmlElementNotFound { selector, detail } => {
                if detail@.len() == 0 {
                    "Element not found with selector '"@ + selector@ + "'"@
                } else {
                    detail@
                }
            },
            Error::Markdown(e) => e.spec_message(),
        }
    }

    pub fn message(&self) -> (r: String)
        ensures
            r@ == self.spec_message(),
    {
        match self {
            Error::Build(e) => e.message(),
            Error::Open(e) => e.message(),
            Error::HtmlSelectorParseFailed { selector, error } => {
                let mut out: Vec<char> = Vec::new();
                append_str(&mut out, "Failed to parse selector '");
                append_str(&mut out, selector.as_str());
                append_str(&mut out, "': ");
                append_str(&mut out, error.as_str());
                chars_string(&out)
            },
            Error::HtmlElementNotFound { selector, detail } => {
                let mut out: Vec<char> = Vec::new();
                if detail.as_str().unicode_len() == 0 {
                    append_str(&mut out, "Element not found with selector '");
                    append_str(&mut out, selector.as_str());
                    append_str(&mut out, "'");
                } else {
                    append_str(&mut out, detail.as_str());
                }
                chars_string(&out)
            },
            Error::Markdown(e) => e.message(),
        }
    }
}

impl From<BuildError> for Error {
    fn from(err: BuildError) -> (r: Error) {
        Error::Build(err)
    }
}

impl vstd::std_specs::convert::FromSpecImpl<BuildError> for Error {
    open spec fn obeys_from_spec() -> bool {
        true
    }

    open spec fn from_spec(err: BuildError) -> Error {
        Error::Build(err)
    }
}

impl From<OpenError> for Error {
    fn from(err: OpenError) -> (r: Error) {
        Error::Open(err)
    }
}

impl vstd::std_specs::convert::FromSpecImpl<OpenError> for Error {
    open spec fn obeys_from_spec() -> bool {
        true
    }

    open spec fn from_spec(err: OpenError) -> Error {
        Error::Open(err)
    }
}

/// The usual result type of the library.
pub type Result<T> = core::result::Result<T, Error>;

} // verus!
