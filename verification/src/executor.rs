//! Planning the execution of an action over the surviving files: which
//! filesystem operation touches which path, and the user-facing counts.
//!
//! The plan is pure data; carrying it out (and honoring dry-run) is the
//! caller's business.

use vstd::prelude::*;

use crate::action::{Action, MoveOrCopy};
use crate::paths::{remap, remap_spec};

verus! {

/// One planned filesystem operation.
#[derive(Debug)]
pub enum PlannedOp {
    /// Remove the file at `path`.
    Remove { path: String },
    /// Move or copy the file at `from` to `to`.
    Transfer { op: MoveOrCopy, from: String, to: String },
}

/// The ghost image of a planned operation, over plain sequences.
pub ghost enum OpView {
    /// Remove the file at `path`.
    Remove { path: Seq<char> },
    /// Move or copy the file at `from` to `to`.
    Transfer { op: MoveOrCopy, from: Seq<char>, to: Seq<char> },
}

impl View for PlannedOp {
    type V = OpView;

    open spec fn view(&self) -> OpView {
        match self {
            PlannedOp::Remove { path } => OpView::Remove { path: path@ },
            PlannedOp::Transfer { op, from, to } => OpView::Transfer {
                op: *op,
                from: from@,
                to: to@,
            },
        }
    }
}

impl DeepView for PlannedOp {
    type V = OpView;

    open spec fn deep_view(&self) -> OpView {
        self.view()
    }
}

/// The operations an action plans for one surviving file: a removal for a
/// delete; for a move or copy, a transfer to the remapped destination, or
/// nothing when the file does not lie under the source directory.
pub open spec fn ops_for_file(
    action: Action,
    src_dir: Seq<char>,
    path: Seq<char>,
) -> Seq<OpView> {
    match action {
        Action::Delete => seq![OpView::Remove { path }],
        Action::MoveOrCopyTo(op, dest) => match remap_spec(
            path,
            src_dir,
            dest@,
        ) {
            Some(to) => seq![OpView::Transfer { op, from: path, to }],
            None => seq![],
        },
    }
}

/// The operations an action plans over a list of surviving files, in order.
pub open spec fn plan_spec(
    action: Action,
    src_dir: Seq<char>,
    files: Seq<Seq<char>>,
) -> Seq<OpView>
    decreases files.len(),
{
    if files.len() == 0 {
        seq![]
    } else {
        plan_spec(action, src_dir, files.drop_last()) + ops_for_file(
            action,
            src_dir,
            files.last(),
        )
    }
}

/// Plan the execution of `action` over the surviving files of a collection
/// rooted at `src_dir`:
///
/// - a delete removes every surviving file;
/// - a move or copy transfers every surviving file to the destination
///   directory, keeping its relative subpath; a file that does not lie
///   under the source directory is skipped.
pub fn plan_action(action: &Action, src_dir: &str, files: &Vec<String>) -> (r:
    Vec<PlannedOp>)
    ensures
        r.deep_view() == plan_spec(*action, src_dir@, files.deep_view()),
{
    let n = files.len();
    let mut out: Vec<PlannedOp> = Vec::new();
    let mut i: usize = 0;
    assert(files.deep_view().subrange(0, 0) =~= Seq::<Seq<char>>::empty());
    while i < n
        invariant
            i <= n,
            n == files@.len(),
            out.deep_view() == plan_spec(
                *action,
                src_dir@,
                files.deep_view().subrange(0, i as int),
            ),
        decreases n - i,
    {
        let ghost prev = out.deep_view();
        let ghost done = files.deep_view().subrange(0, i as int);
        let ghost t = files.deep_view().subrange(0, i as int + 1);
        let ghost p = files.deep_view()[i as int];
        proof {
            assert(files@[i as int]@ == p);
            assert(t.drop_last() =~= done);
            assert(t.last() == p);
        }
        match action {
            Action::Delete => {
                out.push(PlannedOp::Remove { path: files[i].clone() });
                assert(out.deep_view() =~= prev.push(OpView::Remove { path: p }));
                assert(out.deep_view() =~= prev + ops_for_file(
                    *action,
                    src_dir@,
                    p,
                ));
            },
            Action::MoveOrCopyTo(op, dest) => {
                match remap(files[i].as_str(), src_dir, dest.as_str()) {
                    Some(to) => {
                        let ghost to_seq = to@;
                        out.push(PlannedOp::Transfer {
                            op: *op,
                            from: files[i].clone(),
                            to,
                        });
                        assert(out.deep_view() =~= prev + ops_for_file(
                            *action,
                            src_dir@,
                            p,
                        ));
                    },
                    None => {
                        assert(out.deep_view() =~= prev + ops_for_file(
                            *action,
                            src_dir@,
                            p,
                        ));
                    },
                }
            },
        }
        i = i + 1;
    }
    assert(files.deep_view().subrange(0, n as int) =~= files.deep_view());
    out
}

/// The user-facing "keeping" count after the reconciliation stage: for a
/// delete the survivors are the files to be deleted, so the kept files are
/// the complement within the matching set; for a move or copy the
/// survivors are exactly the kept files.
pub fn kept_count(action: &Action, matching: usize, surviving: usize) -> (r:
    usize)
    requires
        surviving <= matching,
    ensures
        *action is Delete ==> r == matching - surviving,
        !(*action is Delete) ==> r == surviving,
{
    match action {
        Action::Delete => matching - surviving,
        Action::MoveOrCopyTo(_, _) => surviving,
    }
}

} // verus!
