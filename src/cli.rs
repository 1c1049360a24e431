//! The options a run is made with.

use vstd::prelude::*;
use crate::comment_type::{display_type_of, CommentType};

verus! {

/// The validated options of one run.
pub struct CommandLineArgs {
    pub filename: String,
    pub context: usize,
    pub display_type: CommentType,
    pub output_filename: Option<String>,
    pub output_file_flag: bool,
}

impl CommandLineArgs {
    /// The options for a path, a context radius, a filter token (`todo`,
    /// `fixme`, `note`, `xxx`; anything else shows every kind) and an
    /// optional markdown output file.
    pub fn new(
        filename: String,
        context: usize,
        display_type_arg: &str,
        output_filename: Option<String>,
    ) -> (r: Self)
        ensures
            r.filename@ == filename@,
            r.context == context,
            r.display_type == display_type_of(display_type_arg@),
            r.output_filename == output_filename,
            r.output_file_flag == output_filename is Some,
    {
        let output_file_flag = output_filename.is_some();
        Self {
            filename,
            context,
            display_type: CommentType::get_display_type(display_type_arg),
            output_filename,
            output_file_flag,
        }
    }
}

} // verus!
