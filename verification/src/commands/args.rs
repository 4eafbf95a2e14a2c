//! The argument shapes of the commands with subcommands.
use vstd::prelude::*;

use crate::commands::creates::{AreasNewArgs, ProjectsNewArgs, TagsDeleteArgs, TagsNewArgs};
use crate::commands::edits::{AreasEditArgs, ProjectsEditArgs, TagsEditArgs};
use crate::commands::listing::ProjectsListArgs;
use crate::commands::tag_tree::TagsListArgs;
use crate::text::{spec_trim, spec_trim_end, trim_end_str, trim_str};

verus! {

/// Subcommands of `areas`.
#[derive(Debug)]
pub enum AreasSubcommand {
    List(AreasListArgs),
    New(AreasNewArgs),
    Edit(AreasEditArgs),
}

/// Arguments of `areas` (listing when no subcommand is given).
#[derive(Debug)]
pub struct AreasArgs {
    pub command: Option<AreasSubcommand>,
}

/// Arguments of `areas list`.
#[derive(Debug)]
pub struct AreasListArgs {}

/// Subcommands of `projects`.
#[derive(Debug)]
pub enum ProjectsSubcommand {
    List(ProjectsListArgs),
    New(ProjectsNewArgs),
    Edit(ProjectsEditArgs),
}

/// Arguments of `projects` (listing when no subcommand is given).
#[derive(Debug)]
pub struct ProjectsArgs {
    /// Show notes for each project.
    pub detailed: bool,
    pub command: Option<ProjectsSubcommand>,
}

impl ProjectsArgs {
    /// Whether the listing shows notes: the top-level flag without a
    /// subcommand, the list's own flag with `list`.
    pub fn effective_detailed(&self) -> (r: bool)
        ensures
            r == match self.command {
                None => self.detailed,
                Some(ProjectsSubcommand::List(la)) => la.detailed,
                Some(_) => false,
            },
    {
        match &self.command {
            None => self.detailed,
            Some(ProjectsSubcommand::List(la)) => la.detailed,
            Some(_) => false,
        }
    }
}

/// Subcommands of `tags`.
#[derive(Debug)]
pub enum TagsSubcommand {
    List(TagsListArgs),
    New(TagsNewArgs),
    Edit(TagsEditArgs),
    Delete(TagsDeleteArgs),
}

/// Arguments of `tags` (listing when no subcommand is given).
#[derive(Debug)]
pub struct TagsArgs {
    pub command: Option<TagsSubcommand>,
}

/// Arguments of `set-auth` (the credentials are prompted for).
#[derive(Debug)]
pub struct SetAuthArgs {}

/// The credentials to store from what was typed: the email line trimmed,
/// the password without trailing whitespace.
pub fn auth_input(email_line: &str, password: &str) -> (r: (String, String))
    ensures
        r.0@ == spec_trim(email_line@),
        r.1@ == spec_trim_end(password@),
{
    (trim_str(email_line), trim_end_str(password))
}

} // verus!
