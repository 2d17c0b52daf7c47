//! What a run does, decided once from its configuration before any request.

use vstd::prelude::*;
use crate::types::Arguments;

verus! {

/// Where the posts of a run come from.
#[derive(Clone, Copy, Debug, PartialEq, Eq)]
pub enum Source {
    /// From a dump written by an earlier run.
    Restore,
    /// From the remote API, page after page.
    Fetch,
}

/// What a run does with its posts.
#[derive(Clone, Copy, Debug, PartialEq, Eq)]
pub enum Consumer {
    /// Write them to a dump.
    Dump,
    /// Render them into an HTML document.
    Export,
    /// Download their media, then rename the files into like order.
    Download,
}

/// The source and consumer of a run.
#[derive(Clone, Copy, Debug, PartialEq, Eq)]
pub struct RunPlan {
    pub source: Source,
    pub consumer: Consumer,
}

/// The plan that the configuration `args` asks for: a restore path selects
/// restoring; a dump path (when fetching) selects dumping, else an export
/// path selects exporting, else the media are downloaded.
pub open spec fn plan_for(args: Arguments) -> RunPlan {
    let source = if args.restore is Some { Source::Restore } else { Source::Fetch };
    let consumer = if args.restore is None && args.dump is Some {
        Consumer::Dump
    } else if args.export is Some {
        Consumer::Export
    } else {
        Consumer::Download
    };
    RunPlan { source, consumer }
}

/// The plan of the run that `args` configures.
pub fn run_plan(args: &Arguments) -> (r: RunPlan)
    ensures
        r == plan_for(*args),
{
    let source = if args.restore.is_some() { Source::Restore } else { Source::Fetch };
    let consumer = if args.restore.is_none() && args.dump.is_some() {
        Consumer::Dump
    } else if args.export.is_some() {
        Consumer::Export
    } else {
        Consumer::Download
    };
    RunPlan { source, consumer }
}

/// Whether the run needs the download folders: only when it downloads media.
pub fn needs_download_folders(plan: RunPlan) -> (r: bool)
    ensures
        r == (plan.consumer == Consumer::Download),
{
    match plan.consumer {
        Consumer::Download => true,
        _ => false,
    }
}

} // verus!
