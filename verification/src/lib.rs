//! Library for traversing & reading GameCube and Wii disc images.
//!
//! The container file's bytes are handed in as one in-memory buffer; the
//! library normalizes the supported container formats (raw ISO/GCM, CISO and
//! WBFS, the latter two with their lossless sidecar header) to a seekable
//! logical disc stream, parses the Wii partition table, decrypts partition
//! user data, validates the per-group hash tree, re-encrypts rebuilt groups
//! for canonical ISO output, and exposes the file system table of a
//! partition.

use vstd::prelude::*;

pub use crate::common::{
    Compression, DiscHeader, DiscMeta, Format, PartitionHeader, PartitionInfo, PartitionKind,
    BI2_SIZE, BOOT_SIZE, SECTOR_SIZE,
};
pub use crate::fst::{Fst, FstIter, Node, NodeKind};
pub use crate::nkit::NKitHeader;
pub use crate::partition::{
    FileStream, HashLevel, HashWarning, PartitionMeta, PartitionReader,
};

pub mod strings;
pub mod util;
pub mod fst;
pub mod common;
pub mod nkit;
pub mod lfg;
pub mod block;
pub mod disc;
pub mod crypto;
pub mod partition;

verus! {

/// Error type for disc image operations.
#[derive(Debug)]
pub enum Error {
    /// A disc-format structural invariant was violated; carries a context message.
    DiscFormat(String),
    /// A read or seek on the underlying container failed; carries a context
    /// message and the cause's message.
    Io(String, String),
    /// Any other error, with a message.
    Other(String),
}

/// Helper result type for [`Error`].
pub type Result<T, E = Error> = core::result::Result<T, E>;

/// Helper trait for adding context to errors.
pub trait ErrorContext {
    /// Adds context to an error.
    fn context(self, context: &str) -> Error;
}

impl ErrorContext for Error {
    /// Prefixes the carried message with further context.
    fn context(self, context: &str) -> Error {
        match self {
            Error::DiscFormat(msg) => Error::DiscFormat(
                crate::strings::concat3(context, ": ", msg.as_str()),
            ),
            Error::Io(msg, cause) => Error::Io(
                crate::strings::concat3(context, ": ", msg.as_str()),
                cause,
            ),
            Error::Other(msg) => Error::Other(crate::strings::concat3(context, ": ", msg.as_str())),
        }
    }
}

/// Helper trait for adding context to result errors.
pub trait ResultContext<T> {
    /// Adds context to a result error, keeping a success untouched.
    fn context(self, context: &str) -> (r: Result<T>);
}

impl<T> ResultContext<T> for Result<T, Error> {
    fn context(self, context: &str) -> (r: Result<T>)
        ensures
            r is Ok <==> self is Ok,
            r is Ok ==> r->Ok_0 == self->Ok_0,
    {
        match self {
            Ok(v) => Ok(v),
            Err(e) => Err(e.context(context)),
        }
    }
}

/// Options for opening a disc image.
#[derive(Debug, Clone)]
pub struct OpenOptions {
    /// Wii: rebuild partition data encryption and hashes when the underlying
    /// format stores data decrypted or with hashes removed.
    pub rebuild_encryption: bool,
    /// Wii: validate partition data hashes while reading the disc image.
    pub validate_hashes: bool,
}

impl Default for OpenOptions {
    /// Both options start disabled.
    fn default() -> (r: Self)
        ensures
            !r.rebuild_encryption,
            !r.validate_hashes,
    {
        OpenOptions { rebuild_encryption: false, validate_hashes: false }
    }
}

/// An open disc image and read stream.
///
/// This is the primary entry point for reading disc images.
pub struct Disc {
    /// The underlying disc reader.
    pub reader: crate::disc::DiscReader,
    /// The options the disc was opened with.
    pub options: OpenOptions,
}

impl Disc {
    /// Opens a disc image from its container bytes with default options.
    pub fn new(data: Vec<u8>) -> (r: Result<Disc>)
        ensures
            r is Ok ==> (r->Ok_0).reader.wf(),
            r is Ok ==> !(r->Ok_0).options.rebuild_encryption && !(
            r->Ok_0).options.validate_hashes,
            r is Ok ==> (r->Ok_0).reader.pos == 0,
            !crate::block::open_ok(data@) ==> r is Err,
            r is Ok ==> (r->Ok_0).reader.provider.wf() && (r->Ok_0).reader.provider.data@ == data@
                && (r->Ok_0).reader.provider.meta.format == crate::block::spec_detect(data@)->0,
            r is Ok ==> crate::disc::reader_accepts(&(r->Ok_0).reader.provider),
            r is Ok ==> crate::common::is_disc_header_at(
                (r->Ok_0).reader.header,
                crate::disc::header_bytes(&(r->Ok_0).reader.provider),
                0,
            ),
            r is Ok ==> (r->Ok_0).reader.size == crate::disc::spec_disc_size(
                &(r->Ok_0).reader.provider,
                (r->Ok_0).reader.partitions@,
            ),
            r is Ok ==> (!((r->Ok_0).reader.header.wii_magic == crate::common::WII_MAGIC) ==> (
            r->Ok_0).reader.partitions@.len() == 0),
            r is Ok && crate::block::spec_detect(data@) == Some(crate::common::Format::Iso) ==> (
            r->Ok_0).reader.provider.meta.disc_size == Some(data@.len() as u64),
            crate::block::spec_detect(data@) == Some(crate::common::Format::Iso) && !(
            crate::util::be32(data@, 0x18) == crate::common::WII_MAGIC) && data@.len()
                <= crate::disc::MAX_DISC_SIZE ==> r is Ok,
    {
        Disc::new_with_options(data, &OpenOptions { rebuild_encryption: false, validate_hashes: false })
    }

    /// Opens a disc image from its container bytes with custom options.
    ///
    /// Fails exactly when the block provider rejects the container, a volume
    /// group declares more partitions than its table region can hold, or the
    /// disc exceeds the addressable range.
    pub fn new_with_options(data: Vec<u8>, options: &OpenOptions) -> (r: Result<Disc>)
        ensures
            r is Ok ==> (r->Ok_0).reader.wf(),
            r is Ok ==> (r->Ok_0).options == *options,
            r is Ok ==> (r->Ok_0).reader.pos == 0,
            !crate::block::open_ok(data@) ==> r is Err,
            r is Ok ==> (r->Ok_0).reader.provider.meta.format == crate::block::spec_detect(
                data@,
            )->0,
            r is Ok ==> (r->Ok_0).reader.provider.wf() && (r->Ok_0).reader.provider.data@ == data@,
            r is Ok ==> crate::block::open_ok(data@) && crate::disc::reader_accepts(
                &(r->Ok_0).reader.provider,
            ),
            r is Ok ==> crate::common::is_disc_header_at(
                (r->Ok_0).reader.header,
                crate::disc::header_bytes(&(r->Ok_0).reader.provider),
                0,
            ),
            r is Ok ==> (r->Ok_0).reader.size == crate::disc::spec_disc_size(
                &(r->Ok_0).reader.provider,
                (r->Ok_0).reader.partitions@,
            ),
            r is Ok ==> ((r->Ok_0).reader.header.wii_magic == crate::common::WII_MAGIC ==> (
            r->Ok_0).reader.partitions@.len() == crate::disc::groups_total(
                &(r->Ok_0).reader.provider,
                4,
            )),
            r is Ok ==> (!((r->Ok_0).reader.header.wii_magic == crate::common::WII_MAGIC) ==> (
            r->Ok_0).reader.partitions@.len() == 0),
            r is Ok ==> forall|i: int|
                0 <= i < (r->Ok_0).reader.partitions@.len() ==> (
                r->Ok_0).reader.partitions@[i].index == i && (exists|g: int, j: int|
                    0 <= g < 4 && 0 <= j < crate::disc::group_count(
                        &(r->Ok_0).reader.provider,
                        g,
                    ) && crate::disc::is_partition_at(
                        &(r->Ok_0).reader.provider,
                        (r->Ok_0).reader.partitions@[i],
                        g,
                        j,
                    )),
            r is Ok && crate::block::spec_detect(data@) == Some(crate::common::Format::Ciso)
                ==> crate::block::meta_reflects_nkit(
                (r->Ok_0).reader.provider.meta,
                (r->Ok_0).reader.provider.nkit,
            ) && ((r->Ok_0).reader.provider.nkit is Some <==> crate::block::ciso_has_nkit(data@)),
            r is Ok && crate::block::spec_detect(data@) == Some(crate::common::Format::Wbfs)
                ==> crate::block::meta_reflects_nkit(
                (r->Ok_0).reader.provider.meta,
                (r->Ok_0).reader.provider.nkit,
            ) && ((r->Ok_0).reader.provider.nkit is Some <==> crate::block::wbfs_has_nkit(data@)),
            r is Ok && crate::block::spec_detect(data@) == Some(crate::common::Format::Iso) ==> (
            r->Ok_0).reader.provider.meta.disc_size == Some(data@.len() as u64),
            crate::block::spec_detect(data@) == Some(crate::common::Format::Iso) && !(
            crate::util::be32(data@, 0x18) == crate::common::WII_MAGIC) && data@.len()
                <= crate::disc::MAX_DISC_SIZE ==> r is Ok,
    {
        let ghost input = data@;
        let provider = match crate::block::open(data) {
            Ok(p) => p,
            Err(e) => {
                return Err(e);
            },
        };
        proof {
            if crate::block::spec_detect(input) == Some(crate::common::Format::Iso) && !(
            crate::util::be32(input, 0x18) == crate::common::WII_MAGIC) && input.len()
                <= crate::disc::MAX_DISC_SIZE {
                crate::block::lemma_iso_passthrough(&provider, 0x18);
                crate::block::lemma_iso_passthrough(&provider, 0x19);
                crate::block::lemma_iso_passthrough(&provider, 0x1A);
                crate::block::lemma_iso_passthrough(&provider, 0x1B);
                assert(!crate::disc::is_wii_disc(&provider));
                assert(crate::disc::reader_accepts(&provider));
            }
        }
        let reader = match crate::disc::DiscReader::new(provider) {
            Ok(rd) => rd,
            Err(e) => {
                return Err(e);
            },
        };
        Ok(Disc { reader, options: OpenOptions { rebuild_encryption: options.rebuild_encryption, validate_hashes: options.validate_hashes } })
    }

    /// The disc's primary header.
    pub fn header(&self) -> (r: &crate::common::DiscHeader)
        ensures
            r == &self.reader.header,
    {
        self.reader.header()
    }

    /// Returns extra metadata included in the disc file format, if any.
    pub fn meta(&self) -> (r: &crate::common::DiscMeta)
        ensures
            r == &self.reader.provider.meta,
    {
        self.reader.provider.meta()
    }

    /// The disc's size in bytes, or an estimate if not stored by the format.
    pub fn disc_size(&self) -> (r: u64)
        ensures
            r == self.reader.size,
    {
        self.reader.disc_size()
    }

    /// A list of Wii partitions on the disc.
    ///
    /// **GameCube**: this is empty.
    pub fn partitions(&self) -> (r: &Vec<crate::common::PartitionInfo>)
        ensures
            r == &self.reader.partitions,
    {
        self.reader.partitions()
    }

    /// Opens a decrypted partition read stream for the specified partition
    /// index.
    ///
    /// **GameCube**: `index` must always be 0.
    pub fn open_partition(&self, index: usize) -> (r: Result<crate::partition::PartitionReader>)
        requires
            self.reader.wf(),
        ensures
            r is Ok ==> (r->Ok_0).wf() && (r->Ok_0).pos == 0 && (r->Ok_0).validate
                == self.options.validate_hashes && (r->Ok_0).disc == &self.reader && (
            r->Ok_0).warnings@.len() == 0,
            self.reader.header.wii_magic == crate::common::WII_MAGIC ==> (r is Ok
                <==> crate::partition::partition_opens(&self.reader, index as int)),
            self.reader.header.wii_magic == crate::common::WII_MAGIC ==> (r is Ok ==> (
            r->Ok_0).info == self.reader.partitions@[index as int] && (r->Ok_0).encrypted == (
            self.reader.header.no_partition_encryption == 0) && (r->Ok_0).has_hashes == (
            self.reader.header.no_partition_hashes == 0)),
            !(self.reader.header.wii_magic == crate::common::WII_MAGIC) ==> (r is Ok <==> index
                == 0),
            !(self.reader.header.wii_magic == crate::common::WII_MAGIC) ==> (r is Ok ==> !(
            r->Ok_0).encrypted && !(r->Ok_0).has_hashes && (r->Ok_0).info.data_start_sector == 0),
            r is Ok && (r->Ok_0).encrypted ==> (r->Ok_0).title_key@
                == crate::partition::spec_title_key(
                &self.reader,
                (r->Ok_0).info.start_sector as int,
            ),
    {
        crate::partition::PartitionReader::new(&self.reader, index, &self.options)
    }

    /// Opens a decrypted partition read stream for the first partition
    /// matching the specified kind.
    ///
    /// **GameCube**: `kind` must always be [`crate::common::PartitionKind::Data`].
    pub fn open_partition_kind(&self, kind: crate::common::PartitionKind) -> (r: Result<
        crate::partition::PartitionReader,
    >)
        requires
            self.reader.wf(),
        ensures
            r is Ok ==> (r->Ok_0).wf() && (r->Ok_0).pos == 0 && (r->Ok_0).validate
                == self.options.validate_hashes && (r->Ok_0).disc == &self.reader,
            self.reader.header.wii_magic == crate::common::WII_MAGIC ==> (match first_kind(
                self.reader.partitions@,
                kind,
                0,
            ) {
                Some(i) => (r is Ok <==> crate::partition::partition_opens(&self.reader, i)) && (
                r is Ok ==> (r->Ok_0).info == self.reader.partitions@[i] && (r->Ok_0).info.kind
                    == kind),
                None => r is Err,
            }),
            !(self.reader.header.wii_magic == crate::common::WII_MAGIC) ==> (r is Ok <==> kind
                == crate::common::PartitionKind::Data),
    {
        if self.header().is_wii() {
            let mut i: usize = 0;
            let n = self.reader.partitions.len();
            while i < n
                invariant
                    i <= n,
                    n == self.reader.partitions@.len(),
                    self.reader.wf(),
                    self.reader.header.wii_magic == crate::common::WII_MAGIC,
                    first_kind(self.reader.partitions@, kind, 0) == first_kind(
                        self.reader.partitions@,
                        kind,
                        i as int,
                    ),
                decreases n - i,
            {
                if kind_eq(self.reader.partitions[i].kind, kind) {
                    return crate::partition::PartitionReader::new(&self.reader, i, &self.options);
                }
                i = i + 1;
            }
            Err(Error::DiscFormat("no partition of the requested kind".to_owned()))
        } else {
            if kind_eq(kind, crate::common::PartitionKind::Data) {
                crate::partition::PartitionReader::new(&self.reader, 0, &self.options)
            } else {
                Err(Error::DiscFormat("no partition of the requested kind".to_owned()))
            }
        }
    }

    /// Reads up to `n` bytes of the logical disc at the cursor: only the
    /// cursor moves; header, metadata, partitions and size are untouched.
    pub fn read(&mut self, n: usize) -> (r: Vec<u8>)
        requires
            old(self).reader.wf(),
        ensures
            final(self).reader.wf(),
            r@.len() == (if old(self).reader.pos + n <= old(self).reader.size {
                n as int
            } else if old(self).reader.pos <= old(self).reader.size {
                old(self).reader.size - old(self).reader.pos
            } else {
                0
            }),
            forall|k: int|
                0 <= k < r@.len() ==> r@[k] == old(self).reader.byte_at(old(self).reader.pos + k),
            final(self).reader == (crate::disc::DiscReader {
                pos: (old(self).reader.pos + r@.len()) as u64,
                ..old(self).reader
            }),
            final(self).options == old(self).options,
    {
        self.reader.read(n)
    }

    /// Moves the logical disc cursor; everything else is untouched.
    pub fn seek(&mut self, pos: u64) -> (r: u64)
        ensures
            final(self).reader == (crate::disc::DiscReader { pos, ..old(self).reader }),
            final(self).options == old(self).options,
            r == pos,
    {
        self.reader.seek(pos)
    }

    /// The logical disc cursor.
    pub fn position(&self) -> (r: u64)
        ensures
            r == self.reader.pos,
    {
        self.reader.position()
    }
}

/// The index of the first partition at or after `i` whose kind is `kind`.
pub open spec fn first_kind(
    parts: Seq<crate::common::PartitionInfo>,
    kind: crate::common::PartitionKind,
    i: int,
) -> Option<int>
    decreases parts.len() - i,
{
    if i < 0 || i >= parts.len() {
        None::<int>
    } else if parts[i].kind == kind {
        Some(i)
    } else {
        first_kind(parts, kind, i + 1)
    }
}

/// Whether two partition kinds are the same.
fn kind_eq(a: crate::common::PartitionKind, b: crate::common::PartitionKind) -> (r: bool)
    ensures
        r == (a == b),
{
    match (a, b) {
        (crate::common::PartitionKind::Data, crate::common::PartitionKind::Data) => true,
        (crate::common::PartitionKind::Update, crate::common::PartitionKind::Update) => true,
        (crate::common::PartitionKind::Channel, crate::common::PartitionKind::Channel) => true,
        (crate::common::PartitionKind::Other(x), crate::common::PartitionKind::Other(y)) => x == y,
        _ => false,
    }
}

/// `name` carries `ext` as its extension: some dot sits strictly inside the
/// final path component, nothing after it is a dot or a path separator, and
/// what follows it equals `ext` up to ASCII case.
pub open spec fn spec_has_extension(name: Seq<char>, ext: Seq<char>) -> bool {
    exists|d: int| #![trigger name[d]] is_extension_dot(name, d)
        && crate::strings::fold_eq_seq(name.subrange(d + 1, name.len() as int), ext)
}

/// `d` indexes the dot that starts `name`'s extension: a dot that is neither
/// the first character of the final path component nor followed by another
/// dot or a path separator.
pub open spec fn is_extension_dot(name: Seq<char>, d: int) -> bool {
    &&& 0 < d < name.len()
    &&& name[d] == '.'
    &&& name[d - 1] != '/'
    &&& forall|j: int| d < j < name.len() ==> name[j] != '.' && name[j] != '/'
}

/// Whether the file name has the given extension, compared
/// ASCII-case-insensitively; the extension is what follows the last dot of
/// the final path component, unless that dot starts the component.
pub fn has_extension(filename: &str, extension: &str) -> (r: bool)
    ensures
        r == spec_has_extension(filename@, extension@),
{
    let n: usize = filename.unicode_len();
    let mut i: usize = n;
    while i > 0 && !stop_char(filename, i - 1)
        invariant
            i <= n,
            n == filename@.len(),
            forall|j: int| i <= j < n ==> filename@[j] != '.' && filename@[j] != '/',
        decreases i,
    {
        i = i - 1;
    }
    if i == 0 {
        proof {
            assert forall|d: int| !(is_extension_dot(filename@, d)
                && crate::strings::fold_eq_seq(
                filename@.subrange(d + 1, n as int),
                extension@,
            )) by {
                if 0 < d < n {
                    assert(filename@[d] != '.');
                }
            }
        }
        return false;
    }
    let c = filename.get_char(i - 1);
    if c == '/' {
        proof {
            assert forall|d: int| !is_extension_dot(filename@, d) by {
                if 0 < d < n {
                    if d >= i {
                        assert(filename@[d] != '.');
                    } else if d == i - 1 {
                        assert(filename@[d] == '/');
                    } else {
                        assert(d < i - 1 < n && filename@[i - 1] == '/');
                    }
                }
            }
        }
        false
    } else {
        // The character at i - 1 is the last dot of the final component.
        if i >= 2 && filename.get_char(i - 2) != '/' {
            proof {
                assert(is_extension_dot(filename@, i - 1));
                assert forall|d: int| is_extension_dot(filename@, d) implies d == i - 1 by {
                    if d < i - 1 {
                        assert(d < i - 1 < n && filename@[i - 1] == '.');
                    } else if d > i - 1 {
                        assert(filename@[d] != '.');
                    }
                }
            }
            crate::strings::fold_eq_range(extension, filename, i, n)
        } else {
            proof {
                assert forall|d: int| !is_extension_dot(filename@, d) by {
                    if 0 < d < n {
                        if d >= i {
                            assert(filename@[d] != '.');
                        } else if d == i - 1 {
                            if i >= 2 {
                                assert(filename@[d - 1] == '/');
                            }
                        } else {
                            assert(d < i - 1 < n && filename@[i - 1] == '.');
                        }
                    }
                }
            }
            false
        }
    }
}

/// The character at `j` ends the scan for an extension dot.
fn stop_char(s: &str, j: usize) -> (r: bool)
    requires
        j < s@.len(),
    ensures
        r == (s@[j as int] == '.' || s@[j as int] == '/'),
{
    let c = s.get_char(j);
    c == '.' || c == '/'
}

} // verus!
