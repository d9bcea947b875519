//! Message framing of the codecs: size limits, the compression marker and
//! the protocol version header. Turning values into bytes and back is the
//! serializers' work; what the codecs add around those bytes is here.

use vstd::prelude::*;
use std::io::{Read, Write};
use std::marker::PhantomData;
use flate2::Compression;
use flate2::read::GzDecoder;
use flate2::write::GzEncoder;
use crate::net_error::NetworkError;
use crate::text::{concat_str, decimal, u64_to_decimal};

verus! {

/// What gzip compression at the given level makes of the bytes, or the
/// text of its error.
pub uninterp spec fn gzip_bytes(data: Seq<u8>, level: u32) -> Result<Seq<u8>, Seq<char>>;

/// What gzip decompression makes of the bytes, or the text of its error.
pub uninterp spec fn gunzip_bytes(data: Seq<u8>) -> Result<Seq<u8>, Seq<char>>;

/// `flate2::write::GzEncoder` over a `Vec` at `Compression::new(level)`:
/// compresses the bytes. The contract names the result, and states what
/// the gzip format promises: decompressing the output gives the input back.
/// Levels above 10 trip a debug assertion of the encoder, which `requires`
/// leaves out.
#[verifier::external_body]
pub fn gzip_compress(data: &[u8], level: u32) -> (res: Result<Vec<u8>, String>)
    requires
        level <= 10,
    ensures
        match gzip_bytes(data@, level) {
            Ok(c) => res matches Ok(v) && v@ == c && gunzip_bytes(v@) == Ok::<Seq<u8>, Seq<char>>(data@),
            Err(m) => res matches Err(e) && e@ == m,
        },
{
    let mut encoder = GzEncoder::new(Vec::new(), Compression::new(level));
    encoder.write_all(data).map_err(|e| e.to_string())?;
    encoder.finish().map_err(|e| e.to_string())
}

/// `flate2::read::GzDecoder::read_to_end`: decompresses gzip bytes. The
/// contract names the result.
#[verifier::external_body]
pub fn gzip_decompress(data: &[u8]) -> (res: Result<Vec<u8>, String>)
    ensures
        match gunzip_bytes(data@) {
            Ok(c) => res matches Ok(v) && v@ == c,
            Err(m) => res matches Err(e) && e@ == m,
        },
{
    let mut decompressed = Vec::new();
    GzDecoder::new(data).read_to_end(&mut decompressed).map_err(|e| e.to_string())?;
    Ok(decompressed)
}

/// Whether a message of `len` bytes is within the limit.
pub open spec fn within_limit(max_size: Option<usize>, len: nat) -> bool {
    match max_size {
        Some(m) => len <= m,
        None => true,
    }
}

/// Checks a message size against the limit.
pub fn check_size(max_size: Option<usize>, len: usize) -> (res: Result<(), NetworkError>)
    ensures
        within_limit(max_size, len as nat) ==> res is Ok,
        !within_limit(max_size, len as nat) ==> res == Err::<(), NetworkError>(
            NetworkError::MessageTooLarge { size: len, max_size: max_size->0 }),
{
    match max_size {
        Some(m) => {
            if len > m {
                return Err(NetworkError::MessageTooLarge { size: len, max_size: m });
            }
            Ok(())
        },
        None => Ok(()),
    }
}

/// The binary codec's limits; the bytes come from bincode.
pub struct BinaryCodec<T> {
    max_size: Option<usize>,
    _phantom: PhantomData<T>,
}

impl<T> BinaryCodec<T> {
    pub closed spec fn spec_max_size(&self) -> Option<usize> {
        self.max_size
    }

    /// A codec without a size limit.
    pub fn new() -> (res: Self)
        ensures
            res.spec_max_size() is None,
    {
        BinaryCodec { max_size: None, _phantom: PhantomData }
    }

    /// A codec that refuses messages over `max_size` bytes.
    pub fn with_max_size(max_size: usize) -> (res: Self)
        ensures
            res.spec_max_size() == Some(max_size),
    {
        BinaryCodec { max_size: Some(max_size), _phantom: PhantomData }
    }

    pub fn name(&self) -> (res: &'static str)
        ensures
            res@ == "binary"@,
    {
        "binary"
    }

    pub fn max_size(&self) -> (res: Option<usize>)
        ensures
            res == self.spec_max_size(),
    {
        self.max_size
    }

    /// Checks bytes that bincode produced against the limit and hands them
    /// out.
    pub fn check_encoded(&self, data: Vec<u8>) -> (res: Result<Vec<u8>, NetworkError>)
        ensures
            within_limit(self.spec_max_size(), data@.len()) ==> (res matches Ok(v) && v@ == data@),
            !within_limit(self.spec_max_size(), data@.len()) ==> res == Err::<Vec<u8>, NetworkError>(
                NetworkError::MessageTooLarge { size: data@.len() as usize, max_size: self.spec_max_size()->0 }),
    {
        match check_size(self.max_size, data.len()) {
            Ok(()) => Ok(data),
            Err(e) => Err(e),
        }
    }

    /// Checks incoming bytes against the limit before bincode reads them.
    pub fn check_incoming(&self, data: &[u8]) -> (res: Result<(), NetworkError>)
        ensures
            within_limit(self.spec_max_size(), data@.len()) ==> res is Ok,
            !within_limit(self.spec_max_size(), data@.len()) ==> res == Err::<(), NetworkError>(
                NetworkError::MessageTooLarge { size: data@.len() as usize, max_size: self.spec_max_size()->0 }),
    {
        check_size(self.max_size, data.len())
    }
}

impl<T> Default for BinaryCodec<T> {
    fn default() -> (res: Self)
        ensures
            res.spec_max_size() is None,
    {
        Self::new()
    }
}

/// The JSON codec's limits and layout; the bytes come from serde_json.
pub struct JsonCodec<T> {
    max_size: Option<usize>,
    pretty: bool,
    _phantom: PhantomData<T>,
}

impl<T> JsonCodec<T> {
    pub closed spec fn spec_max_size(&self) -> Option<usize> {
        self.max_size
    }

    pub closed spec fn spec_pretty(&self) -> bool {
        self.pretty
    }

    /// Compact output, no size limit.
    pub fn new() -> (res: Self)
        ensures
            res.spec_max_size() is None,
            !res.spec_pretty(),
    {
        JsonCodec { max_size: None, pretty: false, _phantom: PhantomData }
    }

    /// Compact output, messages over `max_size` bytes refused.
    pub fn with_max_size(max_size: usize) -> (res: Self)
        ensures
            res.spec_max_size() == Some(max_size),
            !res.spec_pretty(),
    {
        JsonCodec { max_size: Some(max_size), pretty: false, _phantom: PhantomData }
    }

    /// Pretty-printed output, no size limit.
    pub fn pretty() -> (res: Self)
        ensures
            res.spec_max_size() is None,
            res.spec_pretty(),
    {
        JsonCodec { max_size: None, pretty: true, _phantom: PhantomData }
    }

    /// Pretty-printed output, messages over `max_size` bytes refused.
    pub fn pretty_with_max_size(max_size: usize) -> (res: Self)
        ensures
            res.spec_max_size() == Some(max_size),
            res.spec_pretty(),
    {
        JsonCodec { max_size: Some(max_size), pretty: true, _phantom: PhantomData }
    }

    /// Whether output is pretty-printed.
    pub fn is_pretty(&self) -> (res: bool)
        ensures
            res == self.spec_pretty(),
    {
        self.pretty
    }

    pub fn name(&self) -> (res: &'static str)
        ensures
            res@ == "json"@,
    {
        "json"
    }

    pub fn max_size(&self) -> (res: Option<usize>)
        ensures
            res == self.spec_max_size(),
    {
        self.max_size
    }

    /// Checks bytes that serde_json produced against the limit and hands
    /// them out.
    pub fn check_encoded(&self, data: Vec<u8>) -> (res: Result<Vec<u8>, NetworkError>)
        ensures
            within_limit(self.spec_max_size(), data@.len()) ==> (res matches Ok(v) && v@ == data@),
            !within_limit(self.spec_max_size(), data@.len()) ==> res == Err::<Vec<u8>, NetworkError>(
                NetworkError::MessageTooLarge { size: data@.len() as usize, max_size: self.spec_max_size()->0 }),
    {
        match check_size(self.max_size, data.len()) {
            Ok(()) => Ok(data),
            Err(e) => Err(e),
        }
    }

    /// Checks incoming bytes against the limit before serde_json reads them.
    pub fn check_incoming(&self, data: &[u8]) -> (res: Result<(), NetworkError>)
        ensures
            within_limit(self.spec_max_size(), data@.len()) ==> res is Ok,
            !within_limit(self.spec_max_size(), data@.len()) ==> res == Err::<(), NetworkError>(
                NetworkError::MessageTooLarge { size: data@.len() as usize, max_size: self.spec_max_size()->0 }),
    {
        check_size(self.max_size, data.len())
    }
}

impl<T> Default for JsonCodec<T> {
    fn default() -> (res: Self)
        ensures
            res.spec_max_size() is None,
            !res.spec_pretty(),
    {
        Self::new()
    }
}

/// The frame of an uncompressed message: the marker 0, then the bytes.
pub open spec fn plain_frame(data: Seq<u8>) -> Seq<u8> {
    seq![0u8] + data
}

/// The frame of a compressed message: the marker 1, then the gzip bytes.
pub open spec fn gzip_frame(compressed: Seq<u8>) -> Seq<u8> {
    seq![1u8] + compressed
}

/// What compression makes of a message: messages under `min_size` bytes go
/// uncompressed; the others are gzip-compressed at `level`.
pub open spec fn compress_spec(data: Seq<u8>, min_size: usize, level: u8) -> Result<Seq<u8>, Seq<char>> {
    if data.len() < min_size {
        Ok(plain_frame(data))
    } else {
        match gzip_bytes(data, level as u32) {
            Ok(c) => Ok(gzip_frame(c)),
            Err(m) => Err("compression error: "@ + m),
        }
    }
}

/// What decompression makes of a frame.
pub open spec fn decompress_spec(data: Seq<u8>) -> Result<Seq<u8>, Seq<char>> {
    if data.len() == 0 {
        Err("empty compressed data"@)
    } else if data[0] == 0 {
        Ok(data.skip(1))
    } else if data[0] == 1 {
        match gunzip_bytes(data.skip(1)) {
            Ok(d) => Ok(d),
            Err(m) => Err("decompression error: "@ + m),
        }
    } else {
        Err("invalid compression flag: "@ + decimal(data[0] as nat))
    }
}

/// Adds gzip compression, behind a one-byte marker, to an inner codec's
/// bytes.
pub struct CompressedCodec<T, C> {
    inner_codec: C,
    compression_level: u8,
    min_size: usize,
    _phantom: PhantomData<T>,
}

impl<T, C> CompressedCodec<T, C> {
    /// The compression level stays within 1..=9.
    #[verifier::type_invariant]
    closed spec fn level_in_range(&self) -> bool {
        1 <= self.compression_level <= 9
    }

    pub closed spec fn spec_level(&self) -> u8 {
        self.compression_level
    }

    pub closed spec fn spec_min_size(&self) -> usize {
        self.min_size
    }

    pub closed spec fn spec_inner(&self) -> C {
        self.inner_codec
    }

    /// Level 6; messages of 1024 bytes or more are compressed.
    pub fn new(inner_codec: C) -> (res: Self)
        ensures
            res.spec_inner() == inner_codec,
            res.spec_level() == 6,
            res.spec_min_size() == 1024,
    {
        CompressedCodec { inner_codec, compression_level: 6, min_size: 1024, _phantom: PhantomData }
    }

    /// The given level, brought into 1..=9.
    pub fn with_level(inner_codec: C, level: u8) -> (res: Self)
        ensures
            res.spec_inner() == inner_codec,
            res.spec_level() == if level < 1 { 1 } else if level > 9 { 9 } else { level },
            res.spec_min_size() == 1024,
    {
        let clamped: u8 = if level < 1 { 1 } else if level > 9 { 9 } else { level };
        CompressedCodec { inner_codec, compression_level: clamped, min_size: 1024, _phantom: PhantomData }
    }

    /// Compresses messages of `min_size` bytes or more.
    pub fn with_min_size(self, min_size: usize) -> (res: Self)
        ensures
            res.spec_inner() == self.spec_inner(),
            res.spec_level() == self.spec_level(),
            res.spec_min_size() == min_size,
    {
        proof {
            use_type_invariant(&self);
        }
        CompressedCodec {
            inner_codec: self.inner_codec,
            compression_level: self.compression_level,
            min_size,
            _phantom: PhantomData,
        }
    }

    /// The inner codec.
    pub fn inner(&self) -> (res: &C)
        ensures
            *res == self.spec_inner(),
    {
        &self.inner_codec
    }

    pub fn name(&self) -> (res: &'static str)
        ensures
            res@ == "compressed"@,
    {
        "compressed"
    }

    /// Frames the inner codec's bytes: uncompressed behind a 0, or
    /// gzip-compressed behind a 1.
    pub fn compress(&self, data: &[u8]) -> (res: Result<Vec<u8>, NetworkError>)
        ensures
            match compress_spec(data@, self.spec_min_size(), self.spec_level()) {
                Ok(f) => res matches Ok(v) && v@ == f,
                Err(m) => res matches Err(NetworkError::SerializationError { reason }) && reason@ == m,
            },
            res matches Ok(v) ==> decompress_spec(v@) == Ok::<Seq<u8>, Seq<char>>(data@),
    {
        proof {
            use_type_invariant(self);
        }
        if data.len() < self.min_size {
            let mut result: Vec<u8> = Vec::new();
            result.push(0);
            append_bytes(&mut result, data);
            assert(result@.skip(1) =~= data@);
            return Ok(result);
        }
        match gzip_compress(data, self.compression_level as u32) {
            Ok(compressed) => {
                let mut result: Vec<u8> = Vec::new();
                result.push(1);
                append_bytes(&mut result, compressed.as_slice());
                assert(result@.skip(1) =~= compressed@);
                Ok(result)
            },
            Err(e) => Err(NetworkError::SerializationError { reason: concat_str("compression error: ", e.as_str()) }),
        }
    }

    /// Reads a frame back into the inner codec's bytes.
    pub fn decompress(&self, data: &[u8]) -> (res: Result<Vec<u8>, NetworkError>)
        ensures
            match decompress_spec(data@) {
                Ok(d) => res matches Ok(v) && v@ == d,
                Err(m) => res matches Err(NetworkError::DeserializationError { reason }) && reason@ == m,
            },
    {
        if data.len() == 0 {
            return Err(NetworkError::DeserializationError { reason: "empty compressed data".to_owned() });
        }
        let compressed_flag = data[0];
        let payload = tail_bytes(data, 1);
        if compressed_flag == 0 {
            Ok(payload)
        } else if compressed_flag == 1 {
            match gzip_decompress(payload.as_slice()) {
                Ok(d) => Ok(d),
                Err(e) => Err(NetworkError::DeserializationError { reason: concat_str("decompression error: ", e.as_str()) }),
            }
        } else {
            let flag_text = u64_to_decimal(compressed_flag as u64);
            Err(NetworkError::DeserializationError { reason: concat_str("invalid compression flag: ", flag_text.as_str()) })
        }
    }
}

/// Two lists in increasing order that hold the same values are the same list.
proof fn lemma_increasing_unique(s: Seq<u32>, t: Seq<u32>)
    requires
        strictly_increasing(s),
        strictly_increasing(t),
        s.to_set() == t.to_set(),
    ensures
        s == t,
    decreases s.len(),
{
    if s.len() == 0 {
        if t.len() > 0 {
            assert(t.to_set().contains(t[0]));
            assert(!s.contains(t[0]));
        }
        assert(s =~= t);
    } else if t.len() == 0 {
        assert(s.to_set().contains(s[0]));
        assert(!t.contains(s[0]));
    } else {
        assert(s.to_set().contains(s[0]));
        assert(t.contains(s[0]));
        let j = choose|j: int| 0 <= j < t.len() && t[j] == s[0];
        assert(t[0] <= s[0]);
        assert(t.to_set().contains(t[0]));
        assert(s.contains(t[0]));
        let k = choose|k: int| 0 <= k < s.len() && s[k] == t[0];
        assert(s[0] <= t[0]);
        let s1 = s.drop_first();
        let t1 = t.drop_first();
        assert forall|x: u32| s1.to_set().contains(x) <==> t1.to_set().contains(x) by {
            if s1.contains(x) {
                let a = choose|a: int| 0 <= a < s1.len() && s1[a] == x;
                assert(s[a + 1] == x);
                assert(x > s[0]);
                assert(s.to_set().contains(x));
                assert(t.contains(x));
                let b = choose|b: int| 0 <= b < t.len() && t[b] == x;
                assert(b != 0);
                assert(t1[b - 1] == x);
            }
            if t1.contains(x) {
                let a = choose|a: int| 0 <= a < t1.len() && t1[a] == x;
                assert(t[a + 1] == x);
                assert(x > t[0]);
                assert(t.to_set().contains(x));
                assert(s.contains(x));
                let b = choose|b: int| 0 <= b < s.len() && s[b] == x;
                assert(b != 0);
                assert(s1[b - 1] == x);
            }
        }
        assert(s1.to_set() =~= t1.to_set());
        lemma_increasing_unique(s1, t1);
        assert(s =~= seq![s[0]] + s1);
        assert(t =~= seq![t[0]] + t1);
    }
}

/// What `supported_versions` lists is the added versions in increasing
/// order, each once: it is the one list in increasing order that holds
/// exactly the versions added.
pub proof fn law_supported_versions_sorted_distinct<T>(c: VersionedCodec<T>, added: Seq<u32>)
    requires
        c.wf(),
        c.spec_versions().to_set() == added.to_set(),
    ensures
        strictly_increasing(c.spec_versions()),
        forall|x: u32| c.spec_versions().contains(x) <==> added.contains(x),
        forall|t: Seq<u32>| strictly_increasing(t) && t.to_set() == added.to_set() ==> t == c.spec_versions(),
{
    let sv = c.spec_versions();
    assert forall|x: u32| sv.contains(x) <==> added.contains(x) by {
        assert(sv.to_set().contains(x) <==> sv.contains(x));
        assert(added.to_set().contains(x) <==> added.contains(x));
        assert(sv.to_set().contains(x) == added.to_set().contains(x));
    }
    assert forall|t: Seq<u32>| strictly_increasing(t) && t.to_set() == added.to_set() implies t == c.spec_versions() by {
        lemma_increasing_unique(t, c.spec_versions());
    }
}

/// Step `i` of a run of `add_version` calls: the codec after it is well
/// formed and registers the versions before it and `added[i]`.
pub open spec fn adds_step<T>(chain: Seq<VersionedCodec<T>>, added: Seq<u32>, i: int) -> bool {
    &&& chain[i + 1].wf()
    &&& chain[i + 1].spec_versions().to_set() == chain[i].spec_versions().to_set().insert(added[i])
}

/// After the first `k` steps of a run, the registered versions are the
/// first `k` versions added.
proof fn lemma_adds_prefix<T>(chain: Seq<VersionedCodec<T>>, added: Seq<u32>, k: int)
    requires
        chain.len() == added.len() + 1,
        chain[0].spec_versions().len() == 0,
        forall|i: int| 0 <= i < added.len() ==> #[trigger] adds_step(chain, added, i),
        0 <= k <= added.len(),
    ensures
        chain[k].spec_versions().to_set() == added.take(k).to_set(),
    decreases k,
{
    if k == 0 {
        assert(chain[0].spec_versions().to_set() =~= Set::<u32>::empty());
        assert(added.take(0).to_set() =~= Set::<u32>::empty());
    } else {
        lemma_adds_prefix(chain, added, k - 1);
        assert(adds_step(chain, added, k - 1));
        assert(added.take(k) =~= added.take(k - 1).push(added[k - 1]));
        added.take(k - 1).lemma_push_to_set_commute(added[k - 1]);
    }
}

/// Whatever versions a codec made by `new` is given through `add_version`,
/// in any order and with repeats, `supported_versions` then lists exactly
/// those versions, in increasing order, each once.
pub proof fn law_supported_versions_after_adds<T>(chain: Seq<VersionedCodec<T>>, added: Seq<u32>)
    requires
        chain.len() == added.len() + 1,
        chain[0].wf(),
        chain[0].spec_versions().len() == 0,
        forall|i: int| 0 <= i < added.len() ==> #[trigger] adds_step(chain, added, i),
    ensures
        strictly_increasing(chain.last().spec_versions()),
        forall|x: u32| chain.last().spec_versions().contains(x) <==> added.contains(x),
        forall|t: Seq<u32>| strictly_increasing(t) && t.to_set() == added.to_set() ==> t == chain.last().spec_versions(),
{
    let n = added.len() as int;
    lemma_adds_prefix(chain, added, n);
    assert(added.take(n) =~= added);
    if n > 0 {
        assert(adds_step(chain, added, n - 1));
    }
    law_supported_versions_sorted_distinct(chain.last(), added);
}

/// The four little-endian bytes of a version number.
pub open spec fn le_bytes(v: u32) -> Seq<u8> {
    seq![(v % 256) as u8, ((v / 256) % 256) as u8, ((v / 65536) % 256) as u8, (v / 16777216) as u8]
}

/// The version number that four little-endian bytes hold.
pub open spec fn le_value(b: Seq<u8>) -> u32 {
    (b[0] + b[1] * 256 + b[2] * 65536 + b[3] * 16777216) as u32
}

/// The versions are listed in increasing order, each once.
pub open spec fn strictly_increasing(s: Seq<u32>) -> bool {
    forall|i: int, j: int| 0 <= i < j < s.len() ==> s[i] < s[j]
}

/// The highest version in `ours` that `theirs` also lists.
pub open spec fn is_highest_common(ours: Seq<u32>, theirs: Seq<u32>, v: u32) -> bool {
    &&& ours.contains(v)
    &&& theirs.contains(v)
    &&& forall|w: u32| ours.contains(w) && theirs.contains(w) ==> w <= v
}

/// The format of a message payload.
#[derive(Debug, Clone, Copy, PartialEq, Eq, Structural)]
pub enum CodecKind {
    Binary,
    Json,
    PrettyJson,
}

/// The codec of one protocol version: the payload format and its size
/// limit. The bytes are made by the serializer of that format.
#[derive(Debug, Clone, Copy, PartialEq, Eq, Structural)]
pub struct CodecSpec {
    pub kind: CodecKind,
    pub max_size: Option<usize>,
}

/// The codec registered for version `v`, if any.
pub open spec fn codec_for(versions: Seq<u32>, codecs: Seq<CodecSpec>, v: u32) -> Option<CodecSpec> {
    if exists|i: int| 0 <= i < versions.len() && versions[i] == v {
        Some(codecs[choose|i: int| 0 <= i < versions.len() && versions[i] == v])
    } else {
        None
    }
}

/// The smallest size limit among the codecs that have one.
pub open spec fn min_limit(codecs: Seq<CodecSpec>) -> Option<usize>
    decreases codecs.len(),
{
    if codecs.len() == 0 {
        None
    } else {
        let rest = min_limit(codecs.drop_last());
        match codecs.last().max_size {
            None => rest,
            Some(m) => match rest {
                None => Some(m),
                Some(r) => Some(if m < r { m } else { r }),
            },
        }
    }
}

/// In a list of versions in increasing order, the codec at a version's
/// place is the one registered for it.
proof fn lemma_codec_at(versions: Seq<u32>, codecs: Seq<CodecSpec>, i: int)
    requires
        strictly_increasing(versions),
        0 <= i < versions.len(),
    ensures
        codec_for(versions, codecs, versions[i]) == Some(codecs[i]),
{
    let j = choose|j: int| 0 <= j < versions.len() && versions[j] == versions[i];
    assert(j == i);
}

/// Version negotiation, the version header of messages and the codec of
/// each version.
pub struct VersionedCodec<T> {
    version: u32,
    versions: Vec<u32>,
    codecs: Vec<CodecSpec>,
    default_version: u32,
    _phantom: PhantomData<T>,
}

impl<T> VersionedCodec<T> {
    pub closed spec fn spec_version(&self) -> u32 {
        self.version
    }

    pub closed spec fn spec_default_version(&self) -> u32 {
        self.default_version
    }

    /// The registered versions, in increasing order.
    pub closed spec fn spec_versions(&self) -> Seq<u32> {
        self.versions@
    }

    /// The codecs, in the order of the versions.
    pub closed spec fn spec_codecs(&self) -> Seq<CodecSpec> {
        self.codecs@
    }

    /// The codec registered for a version, if any.
    pub open spec fn codec_of(&self, v: u32) -> Option<CodecSpec> {
        codec_for(self.spec_versions(), self.spec_codecs(), v)
    }

    pub closed spec fn wf(&self) -> bool {
        &&& strictly_increasing(self.versions@)
        &&& self.codecs@.len() == self.versions@.len()
    }

    /// No version registered yet; the current version is the default.
    pub fn new(default_version: u32) -> (res: Self)
        ensures
            res.wf(),
            res.spec_version() == default_version,
            res.spec_default_version() == default_version,
            res.spec_versions().len() == 0,
            res.spec_codecs().len() == 0,
            forall|v: u32| res.codec_of(v) is None,
    {
        VersionedCodec {
            version: default_version,
            versions: Vec::new(),
            codecs: Vec::new(),
            default_version,
            _phantom: PhantomData,
        }
    }

    /// Registers the codec of a version; a codec registered for it before
    /// is replaced.
    pub fn add_version(self, version: u32, codec: CodecSpec) -> (res: Self)
        requires
            self.wf(),
        ensures
            res.wf(),
            res.spec_version() == self.spec_version(),
            res.spec_default_version() == self.spec_default_version(),
            res.spec_versions().to_set() == self.spec_versions().to_set().insert(version),
            forall|v: u32| #[trigger] res.codec_of(v) == if v == version { Some(codec) } else { self.codec_of(v) },
    {
        let mut c = self;
        let ghost old_v = c.versions@;
        let ghost old_c = c.codecs@;
        let mut i: usize = 0;
        while i < c.versions.len() && c.versions[i] < version
            invariant
                c.versions@ == old_v,
                c.codecs@ == old_c,
                strictly_increasing(old_v),
                i <= old_v.len(),
                forall|k: int| 0 <= k < i ==> old_v[k] < version,
            decreases old_v.len() - i,
        {
            i = i + 1;
        }
        if i < c.versions.len() && c.versions[i] == version {
            c.codecs.set(i, codec);
            proof {
                assert(old_v.to_set() =~= old_v.to_set().insert(version));
                let nc = c.codecs@;
                assert forall|v: u32| #[trigger] codec_for(old_v, nc, v) == if v == version { Some(codec) } else { codec_for(old_v, old_c, v) } by {
                    if old_v.contains(v) {
                        let k = choose|k: int| 0 <= k < old_v.len() && old_v[k] == v;
                        lemma_codec_at(old_v, nc, k);
                        lemma_codec_at(old_v, old_c, k);
                    }
                }
            }
            return c;
        }
        c.versions.insert(i, version);
        c.codecs.insert(i, codec);
        proof {
            let nv = c.versions@;
            assert(nv == old_v.insert(i as int, version));
            assert forall|a: int, b: int| 0 <= a < b < nv.len() implies nv[a] < nv[b] by {
                if b < i {
                } else if a < i && b == i {
                } else if a < i {
                    assert(nv[b] == old_v[b - 1]);
                } else if a == i {
                    assert(nv[b] == old_v[b - 1]);
                    assert(old_v[i as int] >= version);
                    if b - 1 > i {
                        assert(old_v[i as int] < old_v[b - 1]);
                    }
                } else {
                    assert(nv[a] == old_v[a - 1]);
                    assert(nv[b] == old_v[b - 1]);
                }
            }
            assert forall|x: u32| nv.to_set().contains(x) <==> old_v.to_set().insert(version).contains(x) by {
                if nv.contains(x) {
                    let k = choose|k: int| 0 <= k < nv.len() && nv[k] == x;
                    if k < i {
                        assert(old_v[k] == x);
                    } else if k > i {
                        assert(old_v[k - 1] == x);
                    }
                }
                if old_v.contains(x) {
                    let k = choose|k: int| 0 <= k < old_v.len() && old_v[k] == x;
                    if k < i {
                        assert(nv[k] == x);
                    } else {
                        assert(nv[k + 1] == x);
                    }
                }
                if x == version {
                    assert(nv[i as int] == x);
                }
            }
            assert(nv.to_set() =~= old_v.to_set().insert(version));
            let nc = c.codecs@;
            assert(nc == old_c.insert(i as int, codec));
            assert forall|v: u32| #[trigger] codec_for(nv, nc, v) == if v == version { Some(codec) } else { codec_for(old_v, old_c, v) } by {
                if v == version {
                    lemma_codec_at(nv, nc, i as int);
                } else if old_v.contains(v) {
                    let k = choose|k: int| 0 <= k < old_v.len() && old_v[k] == v;
                    lemma_codec_at(old_v, old_c, k);
                    if k < i {
                        lemma_codec_at(nv, nc, k);
                    } else {
                        assert(nv[k + 1] == v);
                        lemma_codec_at(nv, nc, k + 1);
                    }
                } else {
                    assert(!nv.contains(v)) by {
                        if nv.contains(v) {
                            let k = choose|k: int| 0 <= k < nv.len() && nv[k] == v;
                            if k < i {
                                assert(old_v[k] == v);
                            } else if k > i {
                                assert(old_v[k - 1] == v);
                            }
                        }
                    }
                }
            }
        }
        c
    }

    /// Makes `version` the version of outgoing messages.
    pub fn set_version(&mut self, version: u32)
        ensures
            final(self).spec_version() == version,
            final(self).spec_versions() == old(self).spec_versions(),
            final(self).spec_codecs() == old(self).spec_codecs(),
            final(self).spec_default_version() == old(self).spec_default_version(),
            final(self).wf() == old(self).wf(),
    {
        self.version = version;
    }

    /// The version of outgoing messages.
    pub fn version(&self) -> (res: u32)
        ensures
            res == self.spec_version(),
    {
        self.version
    }

    pub fn name(&self) -> (res: &'static str)
        ensures
            res@ == "versioned"@,
    {
        "versioned"
    }

    /// Whether a version is registered.
    pub fn has_version(&self, version: u32) -> (res: bool)
        ensures
            res == self.spec_versions().contains(version),
    {
        let mut i: usize = 0;
        while i < self.versions.len()
            invariant
                i <= self.versions@.len(),
                forall|k: int| 0 <= k < i ==> self.versions@[k] != version,
            decreases self.versions@.len() - i,
        {
            if self.versions[i] == version {
                return true;
            }
            i = i + 1;
        }
        false
    }

    /// The registered versions in increasing order.
    pub fn supported_versions(&self) -> (res: Vec<u32>)
        requires
            self.wf(),
        ensures
            res@ == self.spec_versions(),
            strictly_increasing(res@),
    {
        self.versions.clone()
    }

    /// The highest version registered here that the peer lists too, if any.
    pub fn negotiate_version(&self, peer_versions: &[u32]) -> (res: Option<u32>)
        requires
            self.wf(),
        ensures
            res matches Some(v) ==> is_highest_common(self.spec_versions(), peer_versions@, v),
            res is None ==> !exists|w: u32| self.spec_versions().contains(w) && peer_versions@.contains(w),
    {
        let mut best: Option<u32> = None;
        let mut i: usize = 0;
        while i < self.versions.len()
            invariant
                strictly_increasing(self.versions@),
                i <= self.versions@.len(),
                best matches Some(v) ==> exists|k: int| 0 <= k < i && self.versions@[k] == v,
                best matches Some(v) ==> peer_versions@.contains(v),
                best matches Some(v) ==> forall|k: int| 0 <= k < i && peer_versions@.contains(self.versions@[k])
                    ==> self.versions@[k] <= v,
                best is None ==> forall|k: int| 0 <= k < i ==> !peer_versions@.contains(self.versions@[k]),
            decreases self.versions@.len() - i,
        {
            let v = self.versions[i];
            if slice_contains(peer_versions, v) {
                best = Some(v);
            }
            i = i + 1;
        }
        proof {
            if let Some(v) = best {
                assert forall|w: u32| self.versions@.contains(w) && peer_versions@.contains(w) implies w <= v by {
                    let k = choose|k: int| 0 <= k < self.versions@.len() && self.versions@[k] == w;
                }
            } else {
                assert forall|w: u32| !(self.versions@.contains(w) && peer_versions@.contains(w)) by {
                    if self.versions@.contains(w) {
                        let k = choose|k: int| 0 <= k < self.versions@.len() && self.versions@[k] == w;
                    }
                }
            }
        }
        best
    }

    /// The message for the peer: the version in four little-endian bytes,
    /// then the payload.
    pub fn frame(&self, payload: &[u8]) -> (res: Vec<u8>)
        ensures
            res@ == le_bytes(self.spec_version()) + payload@,
    {
        let v = self.version;
        let mut result: Vec<u8> = Vec::new();
        result.push((v % 256) as u8);
        result.push(((v / 256) % 256) as u8);
        result.push(((v / 65536) % 256) as u8);
        result.push((v / 16777216) as u8);
        append_bytes(&mut result, payload);
        assert(result@ =~= le_bytes(v) + payload@);
        result
    }

    /// The codec registered for a version, if any.
    pub fn codec_for_version(&self, version: u32) -> (res: Option<CodecSpec>)
        requires
            self.wf(),
        ensures
            res == self.codec_of(version),
    {
        let mut i: usize = 0;
        while i < self.versions.len()
            invariant
                strictly_increasing(self.versions@),
                self.codecs@.len() == self.versions@.len(),
                i <= self.versions@.len(),
                forall|k: int| 0 <= k < i ==> self.versions@[k] != version,
            decreases self.versions@.len() - i,
        {
            if self.versions[i] == version {
                proof { lemma_codec_at(self.versions@, self.codecs@, i as int); }
                return Some(self.codecs[i]);
            }
            i = i + 1;
        }
        None
    }

    /// The codec of the outgoing version; an error where none is
    /// registered for it.
    pub fn check_outgoing(&self) -> (res: Result<CodecSpec, NetworkError>)
        requires
            self.wf(),
        ensures
            self.codec_of(self.spec_version()) matches Some(c) ==> res == Ok::<CodecSpec, NetworkError>(c),
            self.codec_of(self.spec_version()) is None ==>
                (res matches Err(NetworkError::SerializationError { reason })
                && reason@ == "no codec for version "@ + decimal(self.spec_version() as nat)),
    {
        match self.codec_for_version(self.version) {
            Some(c) => Ok(c),
            None => {
                let t = u64_to_decimal(self.version as u64);
                Err(NetworkError::SerializationError { reason: concat_str("no codec for version ", t.as_str()) })
            },
        }
    }

    /// The smallest size limit among the registered codecs, if any has one.
    pub fn max_size(&self) -> (res: Option<usize>)
        requires
            self.wf(),
        ensures
            res == min_limit(self.spec_codecs()),
    {
        let mut best: Option<usize> = None;
        let mut i: usize = 0;
        while i < self.codecs.len()
            invariant
                i <= self.codecs@.len(),
                best == min_limit(self.codecs@.take(i as int)),
            decreases self.codecs@.len() - i,
        {
            assert(self.codecs@.take(i + 1).drop_last() =~= self.codecs@.take(i as int));
            match self.codecs[i].max_size {
                None => {},
                Some(m) => {
                    best = match best {
                        None => Some(m),
                        Some(r) => Some(if m < r { m } else { r }),
                    };
                },
            }
            i = i + 1;
        }
        assert(self.codecs@.take(i as int) =~= self.codecs@);
        best
    }

    /// Splits a message into its version and payload; the version must be
    /// registered.
    pub fn read_header(&self, data: &[u8]) -> (res: Result<(u32, Vec<u8>), NetworkError>)
        ensures
            data@.len() < 4 ==> (res matches Err(NetworkError::DeserializationError { reason })
                && reason@ == "message too short for version header"@),
            data@.len() >= 4 && self.spec_versions().contains(le_value(data@)) ==>
                (res matches Ok((v, p)) && v == le_value(data@) && p@ == data@.skip(4)),
            data@.len() >= 4 && !self.spec_versions().contains(le_value(data@)) ==>
                (res matches Err(NetworkError::DeserializationError { reason })
                && reason@ == "unsupported version: "@ + decimal(le_value(data@) as nat)),
    {
        if data.len() < 4 {
            return Err(NetworkError::DeserializationError { reason: "message too short for version header".to_owned() });
        }
        let version: u32 = data[0] as u32 + (data[1] as u32) * 256 + (data[2] as u32) * 65536 + (data[3] as u32) * 16777216;
        if !self.has_version(version) {
            let t = u64_to_decimal(version as u64);
            return Err(NetworkError::DeserializationError { reason: concat_str("unsupported version: ", t.as_str()) });
        }
        Ok((version, tail_bytes(data, 4)))
    }
}

/// A binary codec without a size limit.
pub fn binary_codec<T>() -> (res: BinaryCodec<T>)
    ensures
        res.spec_max_size() is None,
{
    BinaryCodec::new()
}

/// A compact JSON codec without a size limit.
pub fn json_codec<T>() -> (res: JsonCodec<T>)
    ensures
        res.spec_max_size() is None,
        !res.spec_pretty(),
{
    JsonCodec::new()
}

/// A binary codec behind default compression.
pub fn compressed_binary_codec<T>() -> (res: CompressedCodec<T, BinaryCodec<T>>)
    ensures
        res.spec_inner().spec_max_size() is None,
        res.spec_level() == 6,
        res.spec_min_size() == 1024,
{
    CompressedCodec::new(BinaryCodec::new())
}

/// A compact JSON codec behind default compression.
pub fn compressed_json_codec<T>() -> (res: CompressedCodec<T, JsonCodec<T>>)
    ensures
        res.spec_inner().spec_max_size() is None,
        !res.spec_inner().spec_pretty(),
        res.spec_level() == 6,
        res.spec_min_size() == 1024,
{
    CompressedCodec::new(JsonCodec::new())
}

/// Reading the header of a framed message gives back the version and the
/// payload.
pub proof fn law_version_header_roundtrip(v: u32, payload: Seq<u8>)
    ensures
        le_value(le_bytes(v) + payload) == v,
        (le_bytes(v) + payload).skip(4) == payload,
{
    let f = le_bytes(v) + payload;
    assert(f[0] == (v % 256) as u8);
    assert(f[1] == ((v / 256) % 256) as u8);
    assert(f[2] == ((v / 65536) % 256) as u8);
    assert(f[3] == (v / 16777216) as u8);
    assert((v % 256) + ((v / 256) % 256) * 256 + ((v / 65536) % 256) * 65536 + (v / 16777216) * 16777216 == v)
        by (nonlinear_arith);
    assert(f.skip(4) =~= payload);
}

/// Whether a slice holds a value.
fn slice_contains(s: &[u32], x: u32) -> (res: bool)
    ensures
        res == s@.contains(x),
{
    let mut i: usize = 0;
    while i < s.len()
        invariant
            i <= s@.len(),
            forall|k: int| 0 <= k < i ==> s@[k] != x,
        decreases s@.len() - i,
    {
        if s[i] == x {
            return true;
        }
        i = i + 1;
    }
    false
}

/// Appends bytes to a vector.
fn append_bytes(v: &mut Vec<u8>, data: &[u8])
    ensures
        final(v)@ == old(v)@ + data@,
{
    let ghost start = v@;
    let mut i: usize = 0;
    while i < data.len()
        invariant
            i <= data@.len(),
            v@ == start + data@.subrange(0, i as int),
        decreases data@.len() - i,
    {
        v.push(data[i]);
        i = i + 1;
        assert(v@ =~= start + data@.subrange(0, i as int));
    }
    assert(data@.subrange(0, data@.len() as int) =~= data@);
}

/// The bytes from index `start` on.
fn tail_bytes(data: &[u8], start: usize) -> (res: Vec<u8>)
    requires
        start <= data@.len(),
    ensures
        res@ == data@.skip(start as int),
{
    let mut v: Vec<u8> = Vec::new();
    let mut i: usize = start;
    while i < data.len()
        invariant
            start <= i <= data@.len(),
            v@ == data@.subrange(start as int, i as int),
        decreases data@.len() - i,
    {
        v.push(data[i]);
        i = i + 1;
    }
    assert(data@.skip(start as int) =~= data@.subrange(start as int, data@.len() as int));
    v
}

} // verus!
