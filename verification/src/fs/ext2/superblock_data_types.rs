//! Enumerations stored in the ext2 superblock: file system state, error
//! policy, creator OS, feature flags and compression algorithms.
use vstd::prelude::*;

verus! {

/// File system state recorded in the superblock.
#[derive(Debug, PartialEq, Eq, Structural, Clone, Copy)]
pub enum State {
    Valid,
    Error,
}

impl State {
    /// Decodes the on-disk state value; only 1 and 2 are defined.
    pub fn from_u16(value: u16) -> (s: Self)
        requires
            value == 1 || value == 2,
        ensures
            value == 1 ==> s == State::Valid,
            value == 2 ==> s == State::Error,
    {
        if value == 1 {
            State::Valid
        } else {
            State::Error
        }
    }
}

/// What the driver does when it detects an error.
#[derive(Debug, PartialEq, Eq, Structural, Clone, Copy)]
pub enum Error {
    Ignore,
    RemountReadOnly,
    Panic,
}

impl Error {
    /// Decodes the on-disk error-handling value; only 1, 2 and 3 are defined.
    pub fn from_u16(value: u16) -> (e: Self)
        requires
            1 <= value <= 3,
        ensures
            value == 1 ==> e == Error::Ignore,
            value == 2 ==> e == Error::RemountReadOnly,
            value == 3 ==> e == Error::Panic,
    {
        if value == 1 {
            Error::Ignore
        } else if value == 2 {
            Error::RemountReadOnly
        } else {
            Error::Panic
        }
    }
}

/// Operating system that created the file system.
#[derive(Debug, PartialEq, Eq, Structural, Clone, Copy)]
pub enum CreatorOS {
    Linux,
    Hurd,
    Masix,
    FreeBsd,
    Lites,
}

impl CreatorOS {
    /// Decodes the creator OS identifier; only 0 to 4 are defined.
    pub fn from_u32(value: u32) -> (os: Self)
        requires
            value <= 4,
        ensures
            value == 0 ==> os == CreatorOS::Linux,
            value == 1 ==> os == CreatorOS::Hurd,
            value == 2 ==> os == CreatorOS::Masix,
            value == 3 ==> os == CreatorOS::FreeBsd,
            value == 4 ==> os == CreatorOS::Lites,
    {
        match value {
            0 => CreatorOS::Linux,
            1 => CreatorOS::Hurd,
            2 => CreatorOS::Masix,
            3 => CreatorOS::FreeBsd,
            _ => CreatorOS::Lites,
        }
    }
}

/// Optional features: a driver may ignore them.
#[derive(Debug, PartialEq, Eq, Structural, Clone, Copy)]
pub enum OptionalFeatures {
    DirectoryPrealloc,
    IMagicInodes,
    HasJournal,
    ExtendedAttributes,
    ResizeInode,
    DirectoryIndex,
}

/// The on-disk flag value of each optional feature.
pub open spec fn optional_feature_flag(f: OptionalFeatures) -> u32 {
    match f {
        OptionalFeatures::DirectoryPrealloc => 0x1,
        OptionalFeatures::IMagicInodes => 0x2,
        OptionalFeatures::HasJournal => 0x4,
        OptionalFeatures::ExtendedAttributes => 0x8,
        OptionalFeatures::ResizeInode => 0x10,
        OptionalFeatures::DirectoryIndex => 0x20,
    }
}

/// The declaration index of each optional feature, which is the value the
/// feature tests mask with.
pub open spec fn optional_feature_index(f: OptionalFeatures) -> u32 {
    match f {
        OptionalFeatures::DirectoryPrealloc => 0,
        OptionalFeatures::IMagicInodes => 1,
        OptionalFeatures::HasJournal => 2,
        OptionalFeatures::ExtendedAttributes => 3,
        OptionalFeatures::ResizeInode => 4,
        OptionalFeatures::DirectoryIndex => 5,
    }
}

impl OptionalFeatures {
    /// Decodes a single optional-feature flag.
    pub fn from_u32(value: u32) -> (f: Self)
        requires
            value == 0x1 || value == 0x2 || value == 0x4 || value == 0x8 || value == 0x10
                || value == 0x20,
        ensures
            optional_feature_flag(f) == value,
    {
        match value {
            0x1 => OptionalFeatures::DirectoryPrealloc,
            0x2 => OptionalFeatures::IMagicInodes,
            0x4 => OptionalFeatures::HasJournal,
            0x8 => OptionalFeatures::ExtendedAttributes,
            0x10 => OptionalFeatures::ResizeInode,
            _ => OptionalFeatures::DirectoryIndex,
        }
    }

    fn index(&self) -> (i: u32)
        ensures
            i == optional_feature_index(*self),
    {
        match self {
            OptionalFeatures::DirectoryPrealloc => 0,
            OptionalFeatures::IMagicInodes => 1,
            OptionalFeatures::HasJournal => 2,
            OptionalFeatures::ExtendedAttributes => 3,
            OptionalFeatures::ResizeInode => 4,
            OptionalFeatures::DirectoryIndex => 5,
        }
    }
}

/// Required features: a driver must support them to mount the file system.
#[derive(Debug, PartialEq, Eq, Structural, Clone, Copy)]
pub enum RequiredFeatures {
    Compression,
    FileType,
    Recover,
    JournalDev,
    MetaBg,
}

/// The on-disk flag value of each required feature.
pub open spec fn required_feature_flag(f: RequiredFeatures) -> u32 {
    match f {
        RequiredFeatures::Compression => 0x1,
        RequiredFeatures::FileType => 0x2,
        RequiredFeatures::Recover => 0x4,
        RequiredFeatures::JournalDev => 0x8,
        RequiredFeatures::MetaBg => 0x10,
    }
}

/// The declaration index of each required feature.
pub open spec fn required_feature_index(f: RequiredFeatures) -> u32 {
    match f {
        RequiredFeatures::Compression => 0,
        RequiredFeatures::FileType => 1,
        RequiredFeatures::Recover => 2,
        RequiredFeatures::JournalDev => 3,
        RequiredFeatures::MetaBg => 4,
    }
}

impl RequiredFeatures {
    /// Decodes a single required-feature flag.
    pub fn from_u32(value: u32) -> (f: Self)
        requires
            value == 0x1 || value == 0x2 || value == 0x4 || value == 0x8 || value == 0x10,
        ensures
            required_feature_flag(f) == value,
    {
        match value {
            0x1 => RequiredFeatures::Compression,
            0x2 => RequiredFeatures::FileType,
            0x4 => RequiredFeatures::Recover,
            0x8 => RequiredFeatures::JournalDev,
            _ => RequiredFeatures::MetaBg,
        }
    }

    fn index(&self) -> (i: u32)
        ensures
            i == required_feature_index(*self),
    {
        match self {
            RequiredFeatures::Compression => 0,
            RequiredFeatures::FileType => 1,
            RequiredFeatures::Recover => 2,
            RequiredFeatures::JournalDev => 3,
            RequiredFeatures::MetaBg => 4,
        }
    }
}

/// Read-only features: without them the drive must be mounted read-only.
#[derive(Debug, PartialEq, Eq, Structural, Clone, Copy)]
pub enum ReadOnlyFeatures {
    SparseSuper,
    LargeFile,
    BTreeDir,
}

/// The on-disk flag value of each read-only feature.
pub open spec fn read_only_feature_flag(f: ReadOnlyFeatures) -> u32 {
    match f {
        ReadOnlyFeatures::SparseSuper => 0x1,
        ReadOnlyFeatures::LargeFile => 0x2,
        ReadOnlyFeatures::BTreeDir => 0x4,
    }
}

/// The declaration index of each read-only feature.
pub open spec fn read_only_feature_index(f: ReadOnlyFeatures) -> u32 {
    match f {
        ReadOnlyFeatures::SparseSuper => 0,
        ReadOnlyFeatures::LargeFile => 1,
        ReadOnlyFeatures::BTreeDir => 2,
    }
}

impl ReadOnlyFeatures {
    /// Decodes a single read-only-feature flag.
    pub fn from_u32(value: u32) -> (f: Self)
        requires
            value == 0x1 || value == 0x2 || value == 0x4,
        ensures
            read_only_feature_flag(f) == value,
    {
        match value {
            0x1 => ReadOnlyFeatures::SparseSuper,
            0x2 => ReadOnlyFeatures::LargeFile,
            _ => ReadOnlyFeatures::BTreeDir,
        }
    }

    fn index(&self) -> (i: u32)
        ensures
            i == read_only_feature_index(*self),
    {
        match self {
            ReadOnlyFeatures::SparseSuper => 0,
            ReadOnlyFeatures::LargeFile => 1,
            ReadOnlyFeatures::BTreeDir => 2,
        }
    }
}

/// A raw feature bit set as stored in the superblock.
#[derive(Debug, PartialEq, Eq, Structural, Clone, Copy)]
pub struct Feature(pub u32);

impl Feature {
    pub fn new(value: u32) -> (f: Self)
        ensures
            f.0 == value,
    {
        Feature(value)
    }

    /// Tests the bit set against the feature's declaration index.
    pub fn has_optional_feature(&self, feature: OptionalFeatures) -> (b: bool)
        ensures
            b == (self.0 & optional_feature_index(feature) != 0),
    {
        self.0 & feature.index() != 0
    }

    /// Tests the bit set against the feature's declaration index.
    pub fn has_required_feature(&self, feature: RequiredFeatures) -> (b: bool)
        ensures
            b == (self.0 & required_feature_index(feature) != 0),
    {
        self.0 & feature.index() != 0
    }

    /// Tests the bit set against the feature's declaration index.
    pub fn has_read_only_feature(&self, feature: ReadOnlyFeatures) -> (b: bool)
        ensures
            b == (self.0 & read_only_feature_index(feature) != 0),
    {
        self.0 & feature.index() != 0
    }
}

/// Compression algorithm used by the file system.
#[derive(Debug, PartialEq, Eq, Structural, Clone, Copy)]
pub enum CompressionAlg {
    NoComp,
    LZV1,
    LZRW3A,
    GZIP,
    BZIP2,
    LZO,
}

/// The on-disk value of each compression algorithm.
pub open spec fn compression_value(c: CompressionAlg) -> u32 {
    match c {
        CompressionAlg::NoComp => 0x0,
        CompressionAlg::LZV1 => 0x1,
        CompressionAlg::LZRW3A => 0x2,
        CompressionAlg::GZIP => 0x4,
        CompressionAlg::BZIP2 => 0x8,
        CompressionAlg::LZO => 0x10,
    }
}

impl CompressionAlg {
    /// Decodes the compression algorithm value.
    pub fn from_u32(value: u32) -> (c: Self)
        requires
            value == 0x0 || value == 0x1 || value == 0x2 || value == 0x4 || value == 0x8
                || value == 0x10,
        ensures
            compression_value(c) == value,
    {
        match value {
            0x0 => CompressionAlg::NoComp,
            0x1 => CompressionAlg::LZV1,
            0x2 => CompressionAlg::LZRW3A,
            0x4 => CompressionAlg::GZIP,
            0x8 => CompressionAlg::BZIP2,
            _ => CompressionAlg::LZO,
        }
    }
}

} // verus!
