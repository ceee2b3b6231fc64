//! The structured errors a lint run accumulates.
//!
//! Errors are immutable once created and kept in arrival order. A `Csv` error
//! records a malformed row at the stream layer (the row is skipped, the run
//! goes on); a `Check` error records one cell value a bound check rejected.

use vstd::prelude::*;

verus! {

/// One accumulated lint error.
pub enum LintError {
    /// A row the CSV layer could not parse; carries the parse failure's
    /// description.
    Csv { message: String },
    /// A cell value a bound check rejected: the target identifier, the
    /// 1-based data-row number, the rendered record, and the check's message.
    Check { filename: String, line: usize, record: String, message: String },
}

/// The mathematical model of one lint error.
#[verifier::ext_equal]
pub enum LintErrorModel {
    Csv { message: Seq<char> },
    Check { filename: Seq<char>, line: int, record: Seq<char>, message: Seq<char> },
}

impl View for LintError {
    type V = LintErrorModel;

    open spec fn view(&self) -> LintErrorModel {
        match self {
            LintError::Csv { message } => LintErrorModel::Csv { message: message@ },
            LintError::Check { filename, line, record, message } => LintErrorModel::Check {
                filename: filename@,
                line: *line as int,
                record: record@,
                message: message@,
            },
        }
    }
}

impl DeepView for LintError {
    type V = LintErrorModel;

    open spec fn deep_view(&self) -> LintErrorModel {
        self.view()
    }
}

/// Appending one error extends the accumulated list's model by that error's
/// model.
pub(crate) proof fn lemma_errors_push_deep_view(
    pre: Vec<LintError>,
    post: Vec<LintError>,
    e: LintError,
)
    requires
        post@ == pre@.push(e),
    ensures
        post.deep_view() == pre.deep_view().push(e.deep_view()),
{
    assert forall|i: int| 0 <= i < post@.len() implies post.deep_view()[i] == pre.deep_view().push(
        e.deep_view(),
    )[i] by {
        if i < pre@.len() {
            assert(post@[i] == pre@[i]);
        } else {
            assert(post@[i] == e);
        }
    }
    assert(post.deep_view() =~= pre.deep_view().push(e.deep_view()));
}

} // verus!
