//! Compressed payloads: the codecs, and the container that holds a value as
//! compressed bytes, decoded, or both.
use crate::error::{Error, Fault};
use std::borrow::Cow;
use std::convert::Infallible;
use vstd::prelude::*;

verus! {

/// The codec that a payload was compressed with.
#[derive(Debug, Clone, Copy, PartialEq, Eq, Hash, Default, Structural)]
pub enum Compression {
    /// The bytes are the payload.
    #[default]
    Uncompressed,
    /// A codec that is not implemented.
    Lz4,
    /// A codec that is no longer written, and is not implemented.
    Zstd,
    /// The stream codec.
    Lzma2,
}

impl Compression {
    /// The tag under which the codec is persisted.
    pub open spec fn tag(self) -> u8 {
        match self {
            Compression::Uncompressed => 0,
            Compression::Lz4 => 1,
            Compression::Zstd => 2,
            Compression::Lzma2 => 3,
        }
    }

    /// The tag under which the codec is persisted.
    pub fn as_u8(self) -> (tag: u8)
        ensures
            tag == self.tag(),
    {
        match self {
            Compression::Uncompressed => 0,
            Compression::Lz4 => 1,
            Compression::Zstd => 2,
            Compression::Lzma2 => 3,
        }
    }

    /// The codec that is persisted under `tag`.
    pub fn from_tag(tag: u8) -> (r: Result<Compression, Error>)
        ensures
            match r {
                Ok(codec) => codec.tag() == tag,
                Err(error) => tag > 3 && error == Error::UnsupportedCodec(tag),
            },
    {
        match tag {
            0 => Ok(Compression::Uncompressed),
            1 => Ok(Compression::Lz4),
            2 => Ok(Compression::Zstd),
            3 => Ok(Compression::Lzma2),
            _ => Err(Error::UnsupportedCodec(tag)),
        }
    }
}

/// A value that is held as compressed bytes, decoded, or both.
#[derive(Debug)]
pub enum Compressed<'a, T, C = Option<Infallible>> {
    /// Only the compressed bytes are held.
    Compressed { compressor: C, buf: Cow<'a, [u8]> },
    /// Only the value is held: no bytes stand for it.
    Decompressed { compressor: C, val: T },
    /// The value is held beside the bytes that it was decoded from.
    Cached { compressor: C, val: T, buf: Cow<'a, [u8]> },
}

impl<'a, T, C> Compressed<'a, T, C> {
    /// The compressed bytes, where they are held.
    pub open spec fn raw(self) -> Option<Seq<u8>> {
        match self {
            Compressed::Compressed { buf, .. } => Some(buf@),
            Compressed::Decompressed { .. } => None,
            Compressed::Cached { buf, .. } => Some(buf@),
        }
    }

    /// The decoded value, where it is held.
    pub open spec fn decoded(self) -> Option<T> {
        match self {
            Compressed::Compressed { .. } => None,
            Compressed::Decompressed { val, .. } => Some(val),
            Compressed::Cached { val, .. } => Some(val),
        }
    }

    /// The codec that is held beside the value.
    pub open spec fn compressor(self) -> C {
        match self {
            Compressed::Compressed { compressor, .. } => compressor,
            Compressed::Decompressed { compressor, .. } => compressor,
            Compressed::Cached { compressor, .. } => compressor,
        }
    }

    /// Whether the compressed bytes are held.
    pub fn is_compressed(&self) -> (held: bool)
        ensures
            held == self.raw().is_some(),
    {
        match self {
            Compressed::Compressed { .. } => true,
            Compressed::Cached { .. } => true,
            _ => false,
        }
    }

    /// Whether the decoded value is held.
    pub fn is_decompressed(&self) -> (held: bool)
        ensures
            held == self.decoded().is_some(),
    {
        match self {
            Compressed::Decompressed { .. } => true,
            Compressed::Cached { .. } => true,
            _ => false,
        }
    }

    /// The same value with no codec beside it.
    pub fn without_compressor(self) -> (r: Compressed<'a, T>)
        ensures
            r.raw() == self.raw(),
            r.decoded() == self.decoded(),
            r.compressor() is None,
    {
        match self {
            Compressed::Compressed { buf, .. } => Compressed::Compressed { compressor: None, buf },
            Compressed::Decompressed { val, .. } => Compressed::Decompressed {
                compressor: None,
                val,
            },
            Compressed::Cached { val, buf, .. } => Compressed::Cached { compressor: None, val, buf },
        }
    }

    /// The same value with `compressor` beside it.
    pub fn with_compressor<C2>(self, compressor: C2) -> (r: Compressed<'a, T, C2>)
        ensures
            r.raw() == self.raw(),
            r.decoded() == self.decoded(),
            r.compressor() == compressor,
    {
        match self {
            Compressed::Compressed { buf, .. } => Compressed::Compressed { compressor, buf },
            Compressed::Decompressed { val, .. } => Compressed::Decompressed { compressor, val },
            Compressed::Cached { val, buf, .. } => Compressed::Cached { compressor, val, buf },
        }
    }

    /// The decoded value, if it is held.
    pub fn as_ref(&self) -> (r: Option<&T>)
        ensures
            match r {
                Some(val) => self.decoded() == Some(*val),
                None => self.decoded() is None,
            },
    {
        match self {
            Compressed::Decompressed { val, .. } => Some(val),
            Compressed::Cached { val, .. } => Some(val),
            Compressed::Compressed { .. } => None,
        }
    }
}

impl<T, C: Default> Default for Compressed<'_, T, C> {
    /// No bytes, with the default codec beside them.
    fn default() -> (r: Self)
        ensures
            r matches Compressed::Compressed { compressor, buf } && buf@ == Seq::<u8>::empty()
                && call_ensures(C::default, (), compressor),
    {
        Compressed::Compressed { compressor: C::default(), buf: Cow::Owned(Vec::new()) }
    }
}

/// The bytes of `buf`, in a vector of their own.
fn owned_bytes(buf: Cow<'_, [u8]>) -> (bytes: Vec<u8>)
    ensures
        bytes@ == buf@,
{
    match buf {
        Cow::Borrowed(slice) => vstd::slice::slice_to_vec(slice),
        Cow::Owned(bytes) => bytes,
    }
}

/// The bytes of `buf`.
fn borrowed_bytes<'b>(buf: &'b Cow<'_, [u8]>) -> (bytes: &'b [u8])
    ensures
        bytes@ == buf@,
{
    match buf {
        Cow::Borrowed(slice) => slice,
        Cow::Owned(bytes) => bytes.as_slice(),
    }
}

impl<'a, T, C> Compressed<'a, T, C> {
    /// The same value, its bytes no longer borrowed.
    pub fn into_owned(self) -> (r: Compressed<'static, T, C>)
        ensures
            r.raw() == self.raw(),
            r.decoded() == self.decoded(),
            r.compressor() == self.compressor(),
    {
        match self {
            Compressed::Compressed { compressor, buf } => Compressed::Compressed {
                compressor,
                buf: Cow::Owned(owned_bytes(buf)),
            },
            Compressed::Decompressed { compressor, val } => Compressed::Decompressed {
                compressor,
                val,
            },
            Compressed::Cached { compressor, val, buf } => Compressed::Cached {
                compressor,
                val,
                buf: Cow::Owned(owned_bytes(buf)),
            },
        }
    }

    /// Lets go of the compressed bytes where the decoded value is held.
    pub fn drop_cache(&mut self)
        where C: Default
        ensures
            final(self).decoded() == old(self).decoded(),
            final(self).compressor() == old(self).compressor(),
            final(self).raw() == if old(self).decoded() is Some {
                None
            } else {
                old(self).raw()
            },
    {
        let mut taken: Compressed<'a, T, C> = Compressed::Compressed {
            compressor: C::default(),
            buf: Cow::Owned(Vec::new()),
        };
        core::mem::swap(self, &mut taken);
        *self = match taken {
            Compressed::Cached { compressor, val, .. } => Compressed::Decompressed { compressor, val },
            other => other,
        };
    }

    /// The decoded value, to be changed, if it is held. The compressed
    /// bytes no longer stand for it and are let go.
    pub fn as_mut(&mut self) -> (r: Option<&mut T>)
        where C: Default
        ensures
            match r {
                Some(val) => old(self).decoded() == Some(*val) && final(self).decoded() == Some(
                    *final(val),
                ),
                None => old(self).decoded() is None && final(self).raw() == old(self).raw(),
            },
            final(self).compressor() == old(self).compressor(),
            old(self).decoded() is Some ==> final(self).raw() is None,
    {
        self.drop_cache();
        match self {
            Compressed::Decompressed { val, .. } => Some(val),
            _ => None,
        }
    }
}

/// A codec that turns compressed bytes back into the bytes of a payload.
pub trait Decompressor: Sized {
    /// What decompressing `raw` gives.
    spec fn decompressed(&self, raw: Seq<u8>) -> Result<Seq<u8>, Error>;

    /// Decompresses `raw`.
    fn decompress(&mut self, raw: &[u8]) -> (r: Result<Vec<u8>, Error>)
        ensures
            match r {
                Ok(bytes) => old(self).decompressed(raw@) == Ok::<Seq<u8>, Error>(bytes@),
                Err(error) => old(self).decompressed(raw@) == Err::<Seq<u8>, Error>(error),
            },
            forall|other: Seq<u8>| #[trigger]
                final(self).decompressed(other) == old(self).decompressed(other),
    ;
}

/// Whether two codecs decompress everything alike.
pub open spec fn same_codec<C: Decompressor>(one: C, other: C) -> bool {
    forall|raw: Seq<u8>| #[trigger] one.decompressed(raw) == other.decompressed(raw)
}

/// A value that can be read from the bytes of a payload.
pub trait Payload: Sized {
    /// What a value of this type stands for.
    type Model;

    /// What reading needs besides the bytes.
    type Context;

    /// What the value stands for.
    spec fn model(&self) -> Self::Model;

    /// What `bytes` hold.
    spec fn parse(bytes: Seq<u8>) -> Result<Self::Model, Fault>;

    /// What reading `bytes` does to the context.
    spec fn carried(bytes: Seq<u8>, before: Self::Context, after: Self::Context) -> bool;

    /// Reads a value from `bytes`.
    fn decode(bytes: &[u8], context: &mut Self::Context) -> (r: Result<Self, Fault>)
        ensures
            Self::carried(bytes@, *old(context), *final(context)),
            match r {
                Ok(value) => Self::parse(bytes@) == Ok::<Self::Model, Fault>(value.model()),
                Err(fault) => Self::parse(bytes@) == Err::<Self::Model, Fault>(fault),
            },
    ;
}

impl<T: Payload> Payload for Box<T> {
    type Model = T::Model;

    type Context = T::Context;

    open spec fn model(&self) -> T::Model {
        (**self).model()
    }

    open spec fn parse(bytes: Seq<u8>) -> Result<T::Model, Fault> {
        T::parse(bytes)
    }

    open spec fn carried(bytes: Seq<u8>, before: T::Context, after: T::Context) -> bool {
        T::carried(bytes, before, after)
    }

    fn decode(bytes: &[u8], context: &mut T::Context) -> (r: Result<Box<T>, Fault>) {
        match T::decode(bytes, context) {
            Ok(value) => Ok(Box::new(value)),
            Err(fault) => Err(fault),
        }
    }
}

/// What a payload holds once it is decompressed and read.
pub open spec fn unpacked<T: Payload>(plain: Result<Seq<u8>, Error>) -> Result<T::Model, Error> {
    match plain {
        Err(error) => Err(error),
        Ok(bytes) => match T::parse(bytes) {
            Ok(model) => Ok(model),
            Err(fault) => Err(Error::CorruptStream(fault)),
        },
    }
}

impl<'a, T, C: Decompressor> Compressed<'a, T, C> {
    /// The bytes from which the value is read when it is asked for: what
    /// the compressed bytes decompress to, where no value is held and the
    /// codec does not fail.
    pub open spec fn reading(self) -> Option<Seq<u8>> {
        match self.decoded() {
            Some(_) => None,
            None => match self.compressor().decompressed(self.raw()->0) {
                Ok(plain) => Some(plain),
                Err(_) => None,
            },
        }
    }
}

/// What a container holds: the model of its decoded value or, where it
/// holds none, what its bytes decompress and read to.
pub open spec fn content<T: Payload, C: Decompressor>(held: Compressed<'_, T, C>) -> Result<
    T::Model,
    Error,
> {
    match held.decoded() {
        Some(val) => Ok(val.model()),
        None => unpacked::<T>(held.compressor().decompressed(held.raw()->0)),
    }
}

impl<'a, T, C> Compressed<'a, T, C> {
    /// A value held as the compressed bytes `buf`, with the default codec
    /// beside them.
    pub fn from_bytes(buf: &'a [u8]) -> (r: Self)
        where C: Default
        ensures
            r.raw() == Some(buf@),
            r.decoded() is None,
            call_ensures(C::default, (), r.compressor()),
    {
        Compressed::Compressed { compressor: C::default(), buf: Cow::Borrowed(buf) }
    }

    /// The compressed bytes, as they are persisted. A value that is held
    /// decoded only has to be compressed first.
    pub fn compressed_bytes(&self) -> (r: Result<&[u8], Error>)
        ensures
            match r {
                Ok(bytes) => self.raw() == Some(bytes@),
                Err(error) => self.raw() is None && error == Error::NeedsRecompression,
            },
    {
        match self {
            Compressed::Compressed { buf, .. } => Ok(borrowed_bytes(buf)),
            Compressed::Cached { buf, .. } => Ok(borrowed_bytes(buf)),
            Compressed::Decompressed { .. } => Err(Error::NeedsRecompression),
        }
    }

    /// The decoded value. Where only the compressed bytes are held, `c`
    /// decodes them, and the value is kept beside them; where `c` fails,
    /// nothing changes.
    pub fn decompress_with<E, F: FnOnce(&[u8]) -> Result<T, E>>(&mut self, c: F) -> (r: Result<
        &T,
        E,
    >)
        where C: Default
        requires
            old(self).decoded() is None ==> forall|bytes: &[u8]|
                bytes@ == old(self).raw()->0 ==> c.requires((bytes,)),
        ensures
            final(self).compressor() == old(self).compressor(),
            final(self).raw() == old(self).raw(),
            match r {
                Ok(val) => final(self).decoded() == Some(*val) && (match old(self).decoded() {
                    Some(held) => held == *val,
                    None => exists|bytes: &[u8]|
                        bytes@ == old(self).raw()->0 && c.ensures((bytes,), Ok::<T, E>(*val)),
                }),
                Err(error) => old(self).decoded() is None && final(self).decoded() is None
                    && exists|bytes: &[u8]|
                    bytes@ == old(self).raw()->0 && c.ensures((bytes,), Err::<T, E>(error)),
            },
    {
        if self.is_decompressed() {
            return match self {
                Compressed::Decompressed { val, .. } => Ok(val),
                Compressed::Cached { val, .. } => Ok(val),
                Compressed::Compressed { .. } => unreached(),
            };
        }
        let mut taken: Compressed<'a, T, C> = Compressed::Compressed {
            compressor: C::default(),
            buf: Cow::Owned(Vec::new()),
        };
        core::mem::swap(self, &mut taken);
        match taken {
            Compressed::Compressed { compressor, buf } => {
                match c(borrowed_bytes(&buf)) {
                    Ok(val) => {
                        *self = Compressed::Cached { compressor, val, buf };
                    },
                    Err(error) => {
                        *self = Compressed::Compressed { compressor, buf };
                        return Err(error);
                    },
                }
            },
            other => {
                *self = other;
            },
        }
        match self {
            Compressed::Cached { val, .. } => Ok(val),
            Compressed::Decompressed { val, .. } => Ok(val),
            Compressed::Compressed { .. } => unreached(),
        }
    }
}

impl<'a, T: Payload, C: Decompressor + Default> Compressed<'a, T, C> {
    /// The decoded value. Where only the compressed bytes are held, the
    /// codec decompresses them, the value is read from what comes out and
    /// is kept beside the bytes; where either fails, the bytes stay as they
    /// were.
    pub fn decompress(&mut self, context: &mut T::Context) -> (r: Result<&T, Error>)
        ensures
            final(self).raw() == old(self).raw(),
            same_codec(final(self).compressor(), old(self).compressor()),
            match old(self).reading() {
                Some(bytes) => T::carried(bytes, *old(context), *final(context)),
                None => *final(context) == *old(context),
            },
            old(self).decoded() is Some ==> *final(self) == *old(self) && *final(context) == *old(
                context,
            ),
            match content(*old(self)) {
                Ok(model) => {
                    &&& r matches Ok(val)
                    &&& val.model() == model
                    &&& final(self).decoded() == Some(*val)
                },
                Err(error) => r == Err::<&T, Error>(error) && final(self).decoded() is None,
            },
    {
        if self.is_decompressed() {
            return match self {
                Compressed::Decompressed { val, .. } => Ok(val),
                Compressed::Cached { val, .. } => Ok(val),
                Compressed::Compressed { .. } => unreached(),
            };
        }
        let mut taken: Compressed<'a, T, C> = Compressed::Compressed {
            compressor: C::default(),
            buf: Cow::Owned(Vec::new()),
        };
        core::mem::swap(self, &mut taken);
        match taken {
            Compressed::Compressed { mut compressor, buf } => {
                let plain = match compressor.decompress(borrowed_bytes(&buf)) {
                    Ok(plain) => plain,
                    Err(error) => {
                        *self = Compressed::Compressed { compressor, buf };
                        return Err(error);
                    },
                };
                match T::decode(plain.as_slice(), context) {
                    Ok(val) => {
                        *self = Compressed::Cached { compressor, val, buf };
                    },
                    Err(fault) => {
                        *self = Compressed::Compressed { compressor, buf };
                        return Err(Error::CorruptStream(fault));
                    },
                }
            },
            other => {
                *self = other;
            },
        }
        match self {
            Compressed::Cached { val, .. } => Ok(val),
            Compressed::Decompressed { val, .. } => Ok(val),
            Compressed::Compressed { .. } => unreached(),
        }
    }
}

/// How a run of the stream decoder ended.
#[derive(Debug, Clone, Copy, PartialEq, Eq, Structural)]
pub enum XzStatus {
    /// The stream ended where the input ended.
    Finished,
    /// The input ended before the stream did.
    Truncated,
    /// The input is no stream of this codec.
    Failed,
}

/// What a run of the stream decoder over some input gave.
#[derive(Debug)]
pub struct XzRun {
    pub status: XzStatus,
    /// The bytes that came out before the run ended.
    pub output: Vec<u8>,
    /// How many bytes of the input the decoder took.
    pub consumed: u64,
}

/// What a run of the stream decoder gave, its bytes as a sequence.
pub struct XzRunView {
    pub status: XzStatus,
    pub output: Seq<u8>,
    pub consumed: u64,
}

impl View for XzRun {
    type V = XzRunView;

    open spec fn view(&self) -> XzRunView {
        XzRunView { status: self.status, output: self.output@, consumed: self.consumed }
    }
}

/// What running the stream decoder over `raw` gives.
pub uninterp spec fn xz_run(raw: Seq<u8>) -> XzRunView;

/// One run of `xz2::bufread::XzDecoder` over `raw`: the decoder is made by
/// `XzDecoder::new` and read by `read_to_end`, and `total_in` is asked of
/// it. The run gives how the reading ended, what it had put out by then,
/// and how much of `raw` the decoder had taken; the same bytes give the
/// same run.
#[verifier::external_body]
fn xz_read_all(raw: &[u8]) -> (run: XzRun)
    ensures
        run@ == xz_run(raw@),
{
    let mut decoder = xz2::bufread::XzDecoder::new(raw);
    let mut output = Vec::new();
    let status = match std::io::Read::read_to_end(&mut decoder, &mut output) {
        Ok(_) => XzStatus::Finished,
        Err(e) if e.kind() == std::io::ErrorKind::UnexpectedEof => XzStatus::Truncated,
        Err(_) => XzStatus::Failed,
    };
    XzRun { status, output, consumed: decoder.total_in() }
}

/// What a run of the stream decoder over `len` bytes of input counts as:
/// its output, if the decoder took all of the input and either reached the
/// end of the stream or only missed it because the input ended.
pub open spec fn lzma_outcome(run: XzRunView, len: nat) -> Result<Seq<u8>, Error> {
    match run.status {
        XzStatus::Failed => Err(Error::CorruptStream(Fault::BadStream)),
        _ => if run.consumed == len {
            Ok(run.output)
        } else {
            Err(Error::CorruptStream(Fault::UnreadInput))
        },
    }
}

/// The decompressed bytes that a run of the stream decoder over `len`
/// bytes of input stands for.
pub fn lzma_result(run: XzRun, len: usize) -> (r: Result<Vec<u8>, Error>)
    ensures
        match r {
            Ok(bytes) => lzma_outcome(run@, len as nat) == Ok::<Seq<u8>, Error>(bytes@),
            Err(error) => lzma_outcome(run@, len as nat) == Err::<Seq<u8>, Error>(error),
        },
{
    match run.status {
        XzStatus::Failed => Err(Error::CorruptStream(Fault::BadStream)),
        _ => {
            if run.consumed == len as u64 {
                Ok(run.output)
            } else {
                Err(Error::CorruptStream(Fault::UnreadInput))
            }
        },
    }
}

/// Decompresses a stream of the codec with the tag 3.
pub fn decompress_lzma(raw: &[u8]) -> (r: Result<Vec<u8>, Error>)
    ensures
        match r {
            Ok(bytes) => lzma_outcome(xz_run(raw@), raw@.len()) == Ok::<Seq<u8>, Error>(bytes@),
            Err(error) => lzma_outcome(xz_run(raw@), raw@.len()) == Err::<Seq<u8>, Error>(error),
        },
{
    lzma_result(xz_read_all(raw), raw.len())
}

/// The stream that compressing `value` gives.
pub uninterp spec fn xz_stream(value: Seq<u8>) -> Seq<u8>;

/// `xz2::bufread::XzEncoder::new` over `value` at the preset 9, read by
/// `read_to_end`: a stream of the codec with the tag 3. The same bytes give
/// the same stream; nothing else is claimed of it.
#[verifier::external_body]
pub fn compress_lzma(value: &[u8]) -> (stream: Vec<u8>)
    ensures
        stream@ == xz_stream(value@),
{
    let mut stream = Vec::new();
    let _ = std::io::Read::read_to_end(&mut xz2::bufread::XzEncoder::new(value, 9), &mut stream);
    stream
}

impl Decompressor for Compression {
    open spec fn decompressed(&self, raw: Seq<u8>) -> Result<Seq<u8>, Error> {
        match self {
            Compression::Uncompressed => Ok(raw),
            Compression::Lzma2 => lzma_outcome(xz_run(raw), raw.len()),
            _ => Err(Error::UnsupportedCodec(self.tag())),
        }
    }

    fn decompress(&mut self, raw: &[u8]) -> (r: Result<Vec<u8>, Error>)
        ensures
            *final(self) == *old(self),
    {
        match *self {
            Compression::Uncompressed => Ok(vstd::slice::slice_to_vec(raw)),
            Compression::Lzma2 => decompress_lzma(raw),
            _ => Err(Error::UnsupportedCodec(self.as_u8())),
        }
    }
}

/// Whether two containers hold the same bytes, the same value and the same
/// codec, whoever owns the bytes.
pub open spec fn same_content<T, C>(one: Compressed<'_, T, C>, other: Compressed<'_, T, C>) -> bool {
    &&& one.raw() == other.raw()
    &&& one.decoded() == other.decoded()
    &&& one.compressor() == other.compressor()
}

/// Whether `after` is `before` with its value decoded: the bytes are the
/// same, and the value is what they hold.
pub open spec fn opened<T: Payload, C: Decompressor>(
    before: Compressed<'_, T, C>,
    after: Compressed<'_, T, C>,
) -> bool {
    &&& after.raw() == before.raw()
    &&& same_codec(after.compressor(), before.compressor())
    &&& content(before) matches Ok(model)
    &&& after.decoded() matches Some(val)
    &&& val.model() == model
}

/// Whether `after` is `before` after decoding failed with `error`: the
/// bytes are the same, and no value is held.
pub open spec fn unopened<T: Payload, C: Decompressor>(
    before: Compressed<'_, T, C>,
    after: Compressed<'_, T, C>,
    error: Error,
) -> bool {
    &&& after.raw() == before.raw()
    &&& same_codec(after.compressor(), before.compressor())
    &&& content(before) == Err::<T::Model, Error>(error)
    &&& after.decoded() is None
}

/// Whether `after` is `before` with its cache dropped.
pub open spec fn uncached<T, C>(before: Compressed<'_, T, C>, after: Compressed<'_, T, C>) -> bool {
    &&& after.decoded() == before.decoded()
    &&& after.compressor() == before.compressor()
    &&& after.raw() == if before.decoded() is Some {
        None
    } else {
        before.raw()
    }
}

/// A container whose value was decoded holds it: decoding once more finds
/// the value there, and what the container holds is what it held.
pub proof fn lemma_opened_once<T: Payload, C: Decompressor>(
    before: Compressed<'_, T, C>,
    after: Compressed<'_, T, C>,
)
    requires
        opened(before, after),
    ensures
        after.decoded() is Some,
        after.reading() is None,
        content(after) == content(before),
        opened(after, after),
{
}

/// A value that is held decoded only cannot be persisted, and that is how
/// a value is held after it was handed out to be changed.
pub proof fn lemma_changed_needs_recompression<T, C>(
    before: Compressed<'_, T, C>,
    after: Compressed<'_, T, C>,
)
    requires
        before.decoded() is Some,
        uncached(before, after),
    ensures
        after.raw() is None,
        after is Decompressed,
{
}

} // verus!
