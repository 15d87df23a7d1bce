//! From the configuration to a run: which strategy provisions the volume,
//! with which settings, and which directories are made afterwards.

use crate::command::text_option;
use crate::config::{Config, EncryptionKind, EncryptionMode, FilesystemMode};
use crate::ext4::{Ext4Context, Ext4ContextView};
use crate::mount::{join, join_of};
use crate::pool_strategy::{PoolContext, PoolContextView};
use crate::text::{chars_of, texts};
use vstd::prelude::*;
use vstd::string::*;

verus! {

/// The strategy for a run, with its settings.
#[allow(inconsistent_fields)]
pub enum Strategy {
    /// One disk with ext4.
    Ext4 { ctx: Ext4Context },
    /// All unused disks as one pool.
    Pool { ctx: PoolContext },
}

/// The content of a `Strategy`.
#[allow(inconsistent_fields)]
pub enum StrategyView {
    Ext4 { ctx: Ext4ContextView },
    Pool { ctx: PoolContextView },
}

impl View for Strategy {
    type V = StrategyView;

    open spec fn view(&self) -> StrategyView {
        match self {
            Strategy::Ext4 { ctx } => StrategyView::Ext4 { ctx: ctx@ },
            Strategy::Pool { ctx } => StrategyView::Pool { ctx: ctx@ },
        }
    }
}

/// The further file to decrypt: only a key kept in an encrypted file comes
/// with one.
pub open spec fn extra_of(config: Config) -> Option<Seq<char>> {
    match config.encryption {
        Some(EncryptionMode::IndirectKey(args)) => text_option(args.decrypt),
        _ => None,
    }
}

/// The strategy that `config` asks for, for the mount point `mount`: a pool
/// unless ext4 is chosen, unencrypted unless a key is configured, with the
/// volume's UUID as configured or as built in.
pub open spec fn strategy_of(config: Config, mount: Seq<char>) -> StrategyView {
    match config.fs {
        Some(FilesystemMode::Ext4) => StrategyView::Ext4 {
            ctx: Ext4ContextView {
                outer_uuid: config.outer_uuid_spec(),
                encryption: config.encryption_kind_spec(),
                extra: extra_of(config),
            },
        },
        _ => StrategyView::Pool {
            ctx: PoolContextView {
                uuid: config.outer_uuid_spec(),
                mount_path: mount,
                encrypted: config.encryption_kind_spec() != EncryptionKind::Unencrypted,
            },
        },
    }
}

/// Works out the strategy that `config` asks for.
pub fn plan_strategy(config: &Config, mount_path: &str) -> (r: Strategy)
    ensures
        r@ == strategy_of(*config, mount_path@),
{
    let kind = config.encryption_kind();
    match config.filesystem() {
        FilesystemMode::Ext4 => {
            let extra = match &config.encryption {
                Some(EncryptionMode::IndirectKey(args)) => match &args.decrypt {
                    Some(path) => Some(path.clone()),
                    None => None,
                },
                _ => None,
            };
            Strategy::Ext4 {
                ctx: Ext4Context { outer_uuid: config.outer_uuid(), encryption: kind, extra },
            }
        },
        FilesystemMode::Bcachefs => {
            let encrypted = match kind {
                EncryptionKind::Unencrypted => false,
                _ => true,
            };
            Strategy::Pool {
                ctx: PoolContext {
                    uuid: config.outer_uuid(),
                    mount_path: String::from_str(mount_path),
                    encrypted,
                },
            }
        },
    }
}

/// The path of the directory `dir` of the configuration: below the mount
/// point, unless `dir` is absolute.
pub open spec fn subdir_of(mount: Seq<char>, dir: Seq<char>) -> Seq<char> {
    if dir.len() > 0 && dir[0] == '/' {
        dir
    } else {
        join_of(mount, dir)
    }
}

/// The directories to make once the volume is mounted at `mount`.
pub open spec fn ensure_dirs_of(config: Config, mount: Seq<char>) -> Seq<Seq<char>> {
    match config.ensure_dirs {
        Some(dirs) => texts(dirs@).map_values(|dir: Seq<char>| subdir_of(mount, dir)),
        None => Seq::empty(),
    }
}

/// Lists the directories to make once the volume is mounted.
pub fn ensure_dir_paths(config: &Config, mount_path: &str) -> (r: Vec<String>)
    ensures
        texts(r@) == ensure_dirs_of(*config, mount_path@),
{
    let mut out: Vec<String> = Vec::new();
    match &config.ensure_dirs {
        None => {
            assert(texts(out@) =~= Seq::empty());
        },
        Some(dirs) => {
            let mut i: usize = 0;
            while i < dirs.len()
                invariant
                    i <= dirs.len(),
                    out.len() == i,
                    forall|j: int|
                        0 <= j < i ==> (#[trigger] out@[j])@ == subdir_of(
                            mount_path@,
                            dirs@[j]@,
                        ),
                decreases dirs.len() - i,
            {
                let dir = &dirs[i];
                let chars = chars_of(dir.as_str());
                let path = if chars.len() > 0 && chars[0] == '/' {
                    dir.clone()
                } else {
                    join(mount_path, dir.as_str())
                };
                out.push(path);
                i += 1;
            }
            assert(texts(out@) =~= ensure_dirs_of(*config, mount_path@));
        },
    }
    out
}

} // verus!
