//! Filesystems: the command that makes one on a partition, and what its
//! outcome means.

use vstd::prelude::*;
use vstd::string::*;
use crate::conf::disk::{DiskConf, DiskConfView};
use crate::conf::part::{PartAction, PartConf, PartConfView};
use crate::diskmgr::mount::{partition_device, partition_device_path};
use crate::text::{chars_of, string_views};

verus! {

/// A command: the program and its arguments.
#[derive(Debug)]
pub struct FormatCommand {
    pub program: String,
    pub args: Vec<String>,
}

/// A [`FormatCommand`] with its texts taken by their characters.
pub struct FormatCommandView {
    pub program: Seq<char>,
    pub args: Seq<Seq<char>>,
}

impl View for FormatCommand {
    type V = FormatCommandView;

    open spec fn view(&self) -> FormatCommandView {
        FormatCommandView { program: self.program@, args: string_views(self.args@) }
    }
}

/// Whether a partition gets a filesystem: when it is created, and when it
/// is formatted.
pub open spec fn wants_filesystem(p: PartConfView) -> bool {
    p.action == PartAction::Create || p.action == PartAction::Format
}

/// The command that makes the filesystem of a partition: `mkfs` with the
/// type of the filesystem and the device of the partition. There is none
/// for a partition that names no filesystem.
pub open spec fn format_command(disk: DiskConfView, p: PartConfView) -> Option<FormatCommandView> {
    match p.fs {
        Some(fs) => Some(
            FormatCommandView {
                program: "mkfs"@,
                args: seq!["-t"@ + fs, partition_device(disk.path, p.index)],
            },
        ),
        None => None,
    }
}

/// A text without its line feeds.
pub open spec fn without_newlines(text: Seq<char>) -> Seq<char> {
    text.filter(|c: char| c != '\n')
}

/// What the outcome of the command means: success, or a failure whose
/// message is what the command wrote to its error stream, in one line.
pub open spec fn format_result(success: bool, stderr: Seq<char>) -> Result<(), Seq<char>> {
    if success {
        Ok(())
    } else {
        Err(without_newlines(stderr))
    }
}

/// Whether a partition gets a filesystem.
pub fn needs_filesystem(p_conf: &PartConf) -> (needed: bool)
    ensures
        needed == wants_filesystem(p_conf@),
{
    matches!(p_conf.action, PartAction::Create) || matches!(p_conf.action, PartAction::Format)
}

/// The command that makes the filesystem of a partition; `None` where the
/// partition names no filesystem. The command is not run here.
pub fn create_filesystem(d_conf: &DiskConf, p_conf: &PartConf) -> (command: Option<FormatCommand>)
    ensures
        match command {
            Some(c) => format_command(d_conf@, p_conf@) == Some(c@),
            None => format_command(d_conf@, p_conf@) is None,
        },
{
    let fs = match &p_conf.fs {
        Some(fs) => fs,
        None => {
            return None;
        },
    };
    let mut args: Vec<String> = Vec::new();
    args.push(String::from_str("-t").concat(fs.as_str()));
    args.push(partition_device_path(d_conf.path.as_str(), p_conf.index));
    let command = FormatCommand { program: String::from_str("mkfs"), args };
    proof {
        assert(command@.args =~= seq!["-t"@ + fs@, partition_device(d_conf@.path, p_conf@.index)]);
    }
    Some(command)
}

/// Removes the line feeds from a text.
pub fn remove_newlines(text: &str) -> (line: String)
    ensures
        line@ == without_newlines(text@),
{
    let chars = chars_of(text);
    let ghost kept = |c: char| c != '\n';
    let mut line = String::new();
    let mut i: usize = 0;
    proof {
        reveal(Seq::filter);
        assert(chars@.take(0).filter(kept) =~= Seq::<char>::empty());
    }
    while i < chars.len()
        invariant
            i <= chars.len(),
            chars@ == text@,
            kept == (|c: char| c != '\n'),
            line@ == chars@.take(i as int).filter(kept),
        decreases chars.len() - i,
    {
        proof {
            assert(chars@.take(i + 1) =~= chars@.take(i as int).push(chars@[i as int]));
            chars@.take(i as int).lemma_filter_push(chars@[i as int], kept);
        }
        if chars[i] != '\n' {
            line.push(chars[i]);
        }
        i = i + 1;
    }
    proof {
        assert(chars@.take(i as int) =~= chars@);
    }
    line
}

/// Reads the outcome of the command: whether it ended well, and what it
/// wrote to its error stream.
pub fn format_outcome(success: bool, stderr: &str) -> (r: Result<(), String>)
    ensures
        crate::text::text_result(r) == format_result(success, stderr@),
{
    if success {
        Ok(())
    } else {
        Err(remove_newlines(stderr))
    }
}

/// A partition that has passed validation has a command to make its
/// filesystem where it is formatted, and where it is created and mounted.
pub proof fn lemma_validated_has_filesystem(disk: DiskConfView, p: PartConfView)
    requires
        p.broken_rule() is None,
        p.action == PartAction::Format || (p.action == PartAction::Create && p.mount is Some),
    ensures
        format_command(disk, p) is Some,
{
}

} // verus!
