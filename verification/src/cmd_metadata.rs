//! The metadata subcommand: its options and the decision which output
//! format to render.  Serialising and printing happen outside the library.

use vstd::prelude::*;

verus! {

/// The requested output format for the metadata dump.
#[derive(Clone, Copy, PartialEq, Eq, Structural, Debug)]
pub enum Format {
    Json,
    Pretty,
}

/// Command-line options of the metadata subcommand.
#[derive(Clone, Copy, PartialEq, Eq, Structural, Debug)]
pub struct OptMetadata {
    pub format: Format,
}

/// The metadata subcommand.
#[derive(Clone, Copy, PartialEq, Eq, Structural, Debug)]
pub struct CmdMetadata {
    pub opt: OptMetadata,
}

impl CmdMetadata {
    pub fn new(opt: OptMetadata) -> (r: CmdMetadata)
        ensures
            r.opt == opt,
    {
        CmdMetadata { opt }
    }

    /// The format the command will render its output in.
    pub fn output_format(&self) -> (f: Format)
        ensures
            f == self.opt.format,
    {
        self.opt.format
    }
}

} // verus!
