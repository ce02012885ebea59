//! Looking a candidate up as a declaration file: its candidate files (see
//! [`spec_dts_file_candidates`]) are probed in order, each probe recorded in the resolution's
//! dependencies as a file or a missing path, and the first that is a file is the answer; nothing
//! after it is probed.
//!
//! The lookup decides and the resolver does the work: each step names the next path to probe,
//! and the resolver reports back its metadata (links followed).
use vstd::prelude::*;

use crate::cache::probe::probe_is_file;
use crate::context::{recorded, same_but_dependencies, ResolveContext};
use crate::dts::{dts_file_candidates, spec_dts_file_candidates, strings_view, Extensions};
use crate::file_system::FileMetadata;

verus! {

/// What a file lookup does next.
pub enum FileProbeAction {
    /// Report the metadata of this path.
    IsFile(String),
    /// The lookup is over: the first candidate that is a file, if any.
    Done(Option<String>),
}

/// A file lookup under way.
pub struct DtsFileProbe {
    candidates: Vec<String>,
    next: usize,
}

impl DtsFileProbe {
    /// The candidate files, in the order they are probed.
    pub closed spec fn candidates(self) -> Seq<Seq<char>> {
        strings_view(self.candidates@)
    }

    /// The position of the candidate being probed.
    pub closed spec fn pending(self) -> int {
        self.next as int
    }

    /// A probe is pending.
    pub open spec fn wf(self) -> bool {
        0 <= self.pending() < self.candidates().len()
    }

    /// Start the lookup of `candidate`: probe its first candidate file, or end at once with
    /// nothing when it has none.
    pub fn start(candidate: &str, extensions: Extensions) -> (r: (Self, FileProbeAction))
        ensures
            r.0.candidates() == spec_dts_file_candidates(candidate@, extensions),
            r.0.candidates().len() == 0 ==> r.1 is Done && r.1->Done_0 is None,
            r.0.candidates().len() > 0 ==> r.0.wf() && r.0.pending() == 0 && r.1 is IsFile
                && r.1->IsFile_0@ == r.0.candidates()[0],
    {
        let candidates = dts_file_candidates(candidate, extensions);
        if candidates.len() == 0 {
            return (DtsFileProbe { candidates, next: 0 }, FileProbeAction::Done(None));
        }
        let first = candidates[0].clone();
        (DtsFileProbe { candidates, next: 0 }, FileProbeAction::IsFile(first))
    }

    /// The pending candidate has the metadata `meta`. The probe is recorded in `ctx`, a file as
    /// a file dependency and anything else as a missing one; a file ends the lookup with that
    /// candidate, anything else moves on to the next candidate, or ends it with nothing after
    /// the last.
    pub fn on_event(&mut self, ctx: &mut ResolveContext, meta: Option<FileMetadata>) -> (r: FileProbeAction)
        requires
            old(self).wf(),
        ensures
            ({
                let probed = old(self).candidates()[old(self).pending()];
                let is_file = meta matches Some(m) && m.is_file;
                &&& final(self).candidates() == old(self).candidates()
                &&& same_but_dependencies(*old(ctx), *final(ctx))
                &&& is_file ==> recorded(old(ctx).file_dependencies, final(ctx).file_dependencies, probed)
                    && final(ctx).missing_dependencies == old(ctx).missing_dependencies
                &&& !is_file ==> recorded(old(ctx).missing_dependencies, final(ctx).missing_dependencies, probed)
                    && final(ctx).file_dependencies == old(ctx).file_dependencies
                &&& is_file ==> (r is Done && (r->Done_0 matches Some(f) && f@ == probed))
                &&& !is_file && old(self).pending() + 1 < old(self).candidates().len() ==> r is IsFile
                    && final(self).wf() && final(self).pending() == old(self).pending() + 1
                    && r->IsFile_0@ == old(self).candidates()[old(self).pending() + 1]
                &&& !is_file && old(self).pending() + 1 == old(self).candidates().len() ==> r is Done
                    && r->Done_0 is None
            }),
    {
        let i = self.next;
        let path = self.candidates[i].clone();
        if probe_is_file(ctx, path.as_str(), meta) {
            return FileProbeAction::Done(Some(path));
        }
        if i < self.candidates.len() - 1 {
            self.next = i + 1;
            FileProbeAction::IsFile(self.candidates[i + 1].clone())
        } else {
            FileProbeAction::Done(None)
        }
    }
}

} // verus!
