//! What the operator can configure, and the values used where nothing is set.

use vstd::prelude::*;
use vstd::string::*;

verus! {

/// UUID of the raw volume: of the filesystem, or of the encrypted container
/// that holds it.
pub const OUTER_UUID: &'static str = "3d02cfd4-968a-4fe4-a2a0-fe84614485f6";

/// UUID of the filesystem inside an unlocked container.
pub const INNER_UUID: &'static str = "0afee777-4fca-45c6-9bed-64bf3091536b";

/// Where the volume is mounted unless the configuration says otherwise.
pub const DEFAULT_MOUNTPOINT: &'static str = "/mnt/persistent";

/// Where a password that unlocks the volume directly comes from.
pub enum SharedImageKeyMode {
    /// The key is read from standard input.
    Stdin,
    /// The content of a UTF-8 text file is the password.
    File(String),
    /// The operator is asked for the password.
    Password,
}

/// Settings for a volume that a password unlocks directly.
pub struct DirectKeyArgs {
    /// How to get the password.
    pub key_mode: SharedImageKeyMode,
}

/// How the PIN of a smartcard is obtained.
#[derive(Clone, Copy, Debug, PartialEq, Eq, Structural)]
pub enum PinMode {
    /// The PIN that cards are delivered with, `123456`.
    FactoryDefault,
    /// A numeric PIN, entered on a scrambled keypad: the operator presses the
    /// keys that lie where the digits of the PIN are displayed.
    Numpad,
    /// An alphanumeric PIN, typed as it is.
    Text,
}

/// How the key file is unlocked.
#[derive(Clone, Copy, Debug, PartialEq, Eq, Structural)]
pub enum PrivateImageKeyMode {
    /// A smartcard decrypts the key file.
    Smartcard { pin: PinMode },
}

/// Settings for a volume whose key lies in an encrypted file.
pub struct IndirectKeyArgs {
    /// Where the encrypted key lies.
    pub key_path: String,
    /// How to unlock the key file.
    pub key_mode: PrivateImageKeyMode,
    /// A further file to decrypt with the key, if any.
    pub decrypt: Option<String>,
}

/// Whether and how the volume is encrypted.
pub enum EncryptionMode {
    /// The volume is not encrypted.
    Unencrypted,
    /// A password encrypts the volume.
    DirectKey(DirectKeyArgs),
    /// A key kept in an encrypted file encrypts the volume.
    IndirectKey(IndirectKeyArgs),
}

impl Default for EncryptionMode {
    fn default() -> (r: Self)
        ensures
            r is Unencrypted,
    {
        EncryptionMode::Unencrypted
    }
}

/// How disks are turned into a filesystem.
#[derive(Clone, Copy, Debug, PartialEq, Eq, Structural)]
pub enum FilesystemMode {
    /// The largest unused disk is formatted as ext4.
    Ext4,
    /// All unused disks form one pool.
    Bcachefs,
}

/// The whole configuration.
pub struct Config {
    pub _schema: Option<String>,
    /// Ask for detailed logging.
    pub debug: Option<()>,
    /// UUID to use in place of `OUTER_UUID`.
    pub uuid: Option<String>,
    /// How the volume is encrypted; unencrypted where nothing is set.
    pub encryption: Option<EncryptionMode>,
    /// How disks become a filesystem; a pool where nothing is set.
    pub fs: Option<FilesystemMode>,
    /// Where to mount the volume; `DEFAULT_MOUNTPOINT` where nothing is set.
    pub mountpoint: Option<String>,
    /// Directories, relative to the mount point, to create once it is mounted.
    pub ensure_dirs: Option<Vec<String>>,
}

/// Which of the three ways of encrypting a configuration asks for.
#[derive(Clone, Copy, Debug, PartialEq, Eq, Structural)]
pub enum EncryptionKind {
    Unencrypted,
    DirectKey,
    IndirectKey,
}

impl Config {
    /// The UUID of the raw volume.
    pub open spec fn outer_uuid_spec(&self) -> Seq<char> {
        match self.uuid {
            Some(uuid) => uuid@,
            None => OUTER_UUID@,
        }
    }

    /// The UUID of the raw volume: the configured one, else `OUTER_UUID`.
    pub fn outer_uuid(&self) -> (r: String)
        ensures
            r@ == self.outer_uuid_spec(),
    {
        match &self.uuid {
            Some(uuid) => uuid.clone(),
            None => String::from_str(OUTER_UUID),
        }
    }

    /// The mount point as configured.
    pub open spec fn mountpoint_spec(&self) -> Seq<char> {
        match self.mountpoint {
            Some(path) => path@,
            None => DEFAULT_MOUNTPOINT@,
        }
    }

    /// The mount point: the configured one, else `DEFAULT_MOUNTPOINT`.
    pub fn mountpoint(&self) -> (r: String)
        ensures
            r@ == self.mountpoint_spec(),
    {
        match &self.mountpoint {
            Some(path) => path.clone(),
            None => String::from_str(DEFAULT_MOUNTPOINT),
        }
    }

    /// The filesystem strategy: the configured one, else a pool.
    pub fn filesystem(&self) -> (r: FilesystemMode)
        ensures
            r == match self.fs {
                Some(mode) => mode,
                None => FilesystemMode::Bcachefs,
            },
    {
        match self.fs {
            Some(mode) => mode,
            None => FilesystemMode::Bcachefs,
        }
    }

    /// Which way of encrypting is configured.
    pub open spec fn encryption_kind_spec(&self) -> EncryptionKind {
        match self.encryption {
            Some(EncryptionMode::DirectKey(_)) => EncryptionKind::DirectKey,
            Some(EncryptionMode::IndirectKey(_)) => EncryptionKind::IndirectKey,
            _ => EncryptionKind::Unencrypted,
        }
    }

    /// Which way of encrypting is configured; none where nothing is set.
    pub fn encryption_kind(&self) -> (r: EncryptionKind)
        ensures
            r == self.encryption_kind_spec(),
    {
        match &self.encryption {
            Some(EncryptionMode::DirectKey(_)) => EncryptionKind::DirectKey,
            Some(EncryptionMode::IndirectKey(_)) => EncryptionKind::IndirectKey,
            _ => EncryptionKind::Unencrypted,
        }
    }
}

} // verus!
