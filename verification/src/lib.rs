//! A source-to-source pass that inlines file contents into a program tree.
//!
//! Every call of the marker function `includeBytes("<path>")` becomes a call of
//! the runtime decoding function `env.latin1_string_to_uint8array("<text>")`,
//! where `<text>` is the content of the file that `<path>` names below the
//! working directory of the build.

use vstd::prelude::*;
use crate::ast::Program;
use crate::error::TransformError;
use crate::files::Files;
use crate::rewrite::transformed;
use crate::visitor::TransformVisitor;

pub mod ast;
pub mod error;
pub mod files;
pub mod laws;
pub mod rewrite;
pub mod visitor;

verus! {

/// Runs the pass over one program, in the build context given by `filename`
/// and `cwd`, reading from the snapshot `files`. The first failure aborts the
/// transform and is returned in place of the program.
pub fn process_transform(
    program: Program,
    filename: Option<String>,
    cwd: Option<String>,
    files: &Files,
) -> (r: Result<Program, TransformError>)
    ensures
        match transformed(program@, cwd.deep_view(), files@) {
            Ok(body) => r is Ok && r->Ok_0@ == body,
            Err(err) => r is Err && r->Err_0@ == err,
        },
{
    let mut program = program;
    let mut visitor = TransformVisitor::new(filename, cwd);
    match visitor.visit_mut_exprs(&mut program.body, files) {
        Ok(()) => Ok(program),
        Err(err) => Err(err),
    }
}

} // verus!
