//! Configuration of the storage layer and the compression of stored data.

use vstd::prelude::*;
use std::path::PathBuf;
use std::time::Duration;
use crate::clock::{duration_from_secs, secs_duration};
use crate::codec::{gzip_bytes, gunzip_bytes, gzip_compress, gzip_decompress};
use crate::text::{concat_str, decimal, u64_to_decimal};

verus! {

#[verifier::external_type_specification]
#[verifier::external_body]
pub struct ExPathBuf(PathBuf);

/// The path that `PathBuf::from` makes of a text.
pub uninterp spec fn path_of(text: Seq<char>) -> PathBuf;

/// `std::path::PathBuf::from` for a string: the path with that text.
#[verifier::external_body]
pub fn path_from(text: &str) -> (res: PathBuf)
    ensures
        res == path_of(text@),
{
    PathBuf::from(text)
}

/// `Clone` of `std::path::PathBuf`. Nothing is stated of the copy.
pub assume_specification [<PathBuf as Clone>::clone](p: &PathBuf) -> PathBuf;

/// `num_cpus::get`: the number of logical CPUs available, at least 1.
#[verifier::external_body]
pub fn available_cpus() -> (res: usize)
    ensures
        res >= 1,
{
    num_cpus::get()
}

/// Where the data is kept.
#[derive(Debug, Clone, Copy, PartialEq, Eq, Structural)]
pub enum StorageBackendType {
    DuckDB,
    Memory,
    Hybrid,
}

/// How stored data is compressed.
#[derive(Debug, Clone, Copy, PartialEq, Eq, Structural)]
pub enum CompressionType {
    NoCompression,
    Gzip,
    Zstd,
    Lz4,
}

/// The in-memory cache.
#[derive(Debug, Clone, Copy)]
pub struct CacheConfig {
    pub enabled: bool,
    pub size_mb: usize,
    pub ttl_seconds: u64,
    pub max_items: usize,
}

/// How long data is kept and how often it is cleaned up.
#[derive(Debug, Clone, Copy)]
pub struct RetentionConfig {
    pub retention_days: u32,
    pub auto_cleanup: bool,
    pub cleanup_interval_hours: u32,
}

/// Automatic backups.
#[derive(Debug, Clone)]
pub struct BackupConfig {
    pub enabled: bool,
    pub backup_directory: PathBuf,
    pub backup_interval_hours: u32,
    pub max_backups: u32,
}

/// All settings of the storage layer.
#[derive(Debug, Clone)]
pub struct StorageConfig {
    pub backend_type: StorageBackendType,
    pub database_path: PathBuf,
    pub enable_wal: bool,
    pub memory_limit_mb: usize,
    pub worker_threads: usize,
    pub batch_insert_size: usize,
    pub enable_compression: bool,
    pub compression_algorithm: CompressionType,
    pub cache: CacheConfig,
    pub retention: RetentionConfig,
    pub backup: BackupConfig,
}

impl Default for CacheConfig {
    fn default() -> (res: Self)
        ensures
            res.enabled,
            res.size_mb == 256,
            res.ttl_seconds == 3600,
            res.max_items == 100000,
    {
        CacheConfig { enabled: true, size_mb: 256, ttl_seconds: 3600, max_items: 100000 }
    }
}

impl Default for RetentionConfig {
    fn default() -> (res: Self)
        ensures
            res.retention_days == 90,
            res.auto_cleanup,
            res.cleanup_interval_hours == 24,
    {
        RetentionConfig { retention_days: 90, auto_cleanup: true, cleanup_interval_hours: 24 }
    }
}

impl Default for BackupConfig {
    fn default() -> (res: Self)
        ensures
            res.enabled,
            res.backup_directory == path_of("./backups"@),
            res.backup_interval_hours == 24,
            res.max_backups == 7,
    {
        BackupConfig {
            enabled: true,
            backup_directory: path_from("./backups"),
            backup_interval_hours: 24,
            max_backups: 7,
        }
    }
}

/// The defaults of every setting but the database path; the worker count
/// is the number of CPUs, at least one.
pub open spec fn storage_defaults_except_path(c: StorageConfig) -> bool {
    &&& c.backend_type == StorageBackendType::DuckDB
    &&& c.enable_wal
    &&& c.memory_limit_mb == 2048
    &&& c.worker_threads >= 1
    &&& c.batch_insert_size == 1000
    &&& c.enable_compression
    &&& c.compression_algorithm == CompressionType::Zstd
    &&& c.cache.enabled && c.cache.size_mb == 256 && c.cache.ttl_seconds == 3600 && c.cache.max_items == 100000
    &&& c.retention.retention_days == 90 && c.retention.auto_cleanup && c.retention.cleanup_interval_hours == 24
    &&& c.backup.enabled && c.backup.backup_directory == path_of("./backups"@)
    &&& c.backup.backup_interval_hours == 24 && c.backup.max_backups == 7
}

impl Default for StorageConfig {
    fn default() -> (res: Self)
        ensures
            res.database_path == path_of("./data/streamsync.db"@),
            storage_defaults_except_path(res),
    {
        StorageConfig::new(path_from("./data/streamsync.db"))
    }
}

impl StorageConfig {
    /// The defaults with the given database path.
    pub fn new(database_path: PathBuf) -> (res: Self)
        ensures
            res.database_path == database_path,
            storage_defaults_except_path(res),
    {
        StorageConfig {
            backend_type: StorageBackendType::DuckDB,
            database_path,
            enable_wal: true,
            memory_limit_mb: 2048,
            worker_threads: available_cpus(),
            batch_insert_size: 1000,
            enable_compression: true,
            compression_algorithm: CompressionType::Zstd,
            cache: CacheConfig::default(),
            retention: RetentionConfig::default(),
            backup: BackupConfig::default(),
        }
    }

    pub fn with_backend(self, backend_type: StorageBackendType) -> (res: Self)
        ensures
            res == (StorageConfig { backend_type, ..self }),
    {
        let mut c = self;
        c.backend_type = backend_type;
        c
    }

    pub fn with_memory_limit(self, limit_mb: usize) -> (res: Self)
        ensures
            res == (StorageConfig { memory_limit_mb: limit_mb, ..self }),
    {
        let mut c = self;
        c.memory_limit_mb = limit_mb;
        c
    }

    pub fn with_batch_size(self, batch_size: usize) -> (res: Self)
        ensures
            res == (StorageConfig { batch_insert_size: batch_size, ..self }),
    {
        let mut c = self;
        c.batch_insert_size = batch_size;
        c
    }

    /// Turns compression on with the given algorithm.
    pub fn with_compression(self, algorithm: CompressionType) -> (res: Self)
        ensures
            res == (StorageConfig { enable_compression: true, compression_algorithm: algorithm, ..self }),
    {
        let mut c = self;
        c.enable_compression = true;
        c.compression_algorithm = algorithm;
        c
    }

    /// The cache entries' time to live.
    pub fn get_cache_ttl(&self) -> (res: Duration)
        ensures
            res == secs_duration(self.cache.ttl_seconds),
    {
        duration_from_secs(self.cache.ttl_seconds)
    }

    /// The cleanup interval, from hours.
    pub fn get_cleanup_interval(&self) -> (res: Duration)
        ensures
            res == secs_duration((self.retention.cleanup_interval_hours * 3600) as u64),
    {
        duration_from_secs(self.retention.cleanup_interval_hours as u64 * 3600)
    }

    /// The backup interval, from hours.
    pub fn get_backup_interval(&self) -> (res: Duration)
        ensures
            res == secs_duration((self.backup.backup_interval_hours * 3600) as u64),
    {
        duration_from_secs(self.backup.backup_interval_hours as u64 * 3600)
    }
}

/// The compression level each algorithm starts with.
pub open spec fn default_level(algorithm: CompressionType) -> u32 {
    match algorithm {
        CompressionType::NoCompression => 0,
        CompressionType::Gzip => 6,
        CompressionType::Zstd => 3,
        CompressionType::Lz4 => 1,
    }
}

/// What compressing stored data comes to: a copy without compression;
/// gzip at the level for every other algorithm (the others fall back to
/// it).
pub open spec fn engine_compress_spec(algorithm: CompressionType, level: u32, data: Seq<u8>) -> Result<Seq<u8>, Seq<char>> {
    match algorithm {
        CompressionType::NoCompression => Ok(data),
        _ => gzip_bytes(data, level),
    }
}

/// What decompressing stored data comes to, with the check of the expected
/// size.
pub open spec fn engine_decompress_spec(algorithm: CompressionType, data: Seq<u8>, expected: Option<usize>) -> Result<Seq<u8>, Seq<char>> {
    let out = match algorithm {
        CompressionType::NoCompression => Ok(data),
        _ => gunzip_bytes(data),
    };
    match out {
        Err(m) => Err(m),
        Ok(d) => match expected {
            Some(e) => if d.len() != e {
                Err("Decompressed size "@ + decimal(d.len()) + " doesn't match expected size "@ + decimal(e as nat))
            } else {
                Ok(d)
            },
            None => Ok(d),
        },
    }
}

/// Compresses stored data with one algorithm at one level.
#[derive(Clone, Copy)]
pub struct CompressionEngine {
    algorithm: CompressionType,
    level: u32,
}

impl CompressionEngine {
    pub closed spec fn spec_algorithm(&self) -> CompressionType {
        self.algorithm
    }

    pub closed spec fn spec_level(&self) -> u32 {
        self.level
    }

    /// The algorithm at its default level.
    pub fn new(algorithm: CompressionType) -> (res: Self)
        ensures
            res.spec_algorithm() == algorithm,
            res.spec_level() == default_level(algorithm),
    {
        let level: u32 = match algorithm {
            CompressionType::NoCompression => 0,
            CompressionType::Gzip => 6,
            CompressionType::Zstd => 3,
            CompressionType::Lz4 => 1,
        };
        CompressionEngine { algorithm, level }
    }

    pub fn with_level(self, level: u32) -> (res: Self)
        ensures
            res.spec_algorithm() == self.spec_algorithm(),
            res.spec_level() == level,
    {
        CompressionEngine { algorithm: self.algorithm, level }
    }

    pub fn algorithm(&self) -> (res: CompressionType)
        ensures
            res == self.spec_algorithm(),
    {
        self.algorithm
    }

    pub fn level(&self) -> (res: u32)
        ensures
            res == self.spec_level(),
    {
        self.level
    }

    /// Compresses the bytes. Gzip levels above 10 trip a debug assertion of
    /// the encoder; `requires` leaves them out.
    pub fn compress_data(&self, data: &[u8]) -> (res: Result<Vec<u8>, String>)
        requires
            self.spec_algorithm() != CompressionType::NoCompression ==> self.spec_level() <= 10,
        ensures
            match engine_compress_spec(self.spec_algorithm(), self.spec_level(), data@) {
                Ok(c) => res matches Ok(v) && v@ == c,
                Err(m) => res matches Err(e) && e@ == m,
            },
            res matches Ok(v) ==> engine_decompress_spec(self.spec_algorithm(), v@, None) == Ok::<Seq<u8>, Seq<char>>(data@),
    {
        match self.algorithm {
            CompressionType::NoCompression => Ok(crate::program_types::bytes_to_vec(data)),
            _ => gzip_compress(data, self.level),
        }
    }

    /// Compresses the bytes and reports the sizes before and after.
    pub fn compress(&self, data: &[u8]) -> (res: Result<(Vec<u8>, CompressionSizes), String>)
        requires
            self.spec_algorithm() != CompressionType::NoCompression ==> self.spec_level() <= 10,
        ensures
            match engine_compress_spec(self.spec_algorithm(), self.spec_level(), data@) {
                Ok(c) => res matches Ok((v, st)) && v@ == c && st.original_size == data@.len()
                    && st.compressed_size == c.len(),
                Err(m) => res matches Err(e) && e@ == m,
            },
    {
        match self.compress_data(data) {
            Ok(v) => {
                let st = CompressionSizes { original_size: data.len() as u64, compressed_size: v.len() as u64 };
                Ok((v, st))
            },
            Err(e) => Err(e),
        }
    }

    /// Decompresses the bytes, checks the size where one is expected, and
    /// reports the sizes before and after.
    pub fn decompress(&self, data: &[u8], expected_size: Option<usize>) -> (res: Result<(Vec<u8>, CompressionSizes), String>)
        ensures
            match engine_decompress_spec(self.spec_algorithm(), data@, expected_size) {
                Ok(d) => res matches Ok((v, st)) && v@ == d && st.original_size == d.len()
                    && st.compressed_size == data@.len(),
                Err(m) => res matches Err(e) && e@ == m,
            },
    {
        match self.decompress_data(data, expected_size) {
            Ok(v) => {
                let st = CompressionSizes { original_size: v.len() as u64, compressed_size: data.len() as u64 };
                Ok((v, st))
            },
            Err(e) => Err(e),
        }
    }

    /// Decompresses the bytes and checks the size where one is expected.
    pub fn decompress_data(&self, data: &[u8], expected_size: Option<usize>) -> (res: Result<Vec<u8>, String>)
        ensures
            match engine_decompress_spec(self.spec_algorithm(), data@, expected_size) {
                Ok(d) => res matches Ok(v) && v@ == d,
                Err(m) => res matches Err(e) && e@ == m,
            },
    {
        let out = match self.algorithm {
            CompressionType::NoCompression => crate::program_types::bytes_to_vec(data),
            _ => match gzip_decompress(data) {
                Ok(d) => d,
                Err(e) => return Err(e),
            },
        };
        match expected_size {
            Some(e) => {
                if out.len() != e {
                    let a = concat_str("Decompressed size ", u64_to_decimal(out.len() as u64).as_str());
                    let b = concat_str(a.as_str(), " doesn't match expected size ");
                    return Err(concat_str(b.as_str(), u64_to_decimal(e as u64).as_str()));
                }
                Ok(out)
            },
            None => Ok(out),
        }
    }
}

/// The sizes before and after a compression step.
#[derive(Clone, Copy, Debug)]
pub struct CompressionSizes {
    pub original_size: u64,
    pub compressed_size: u64,
}

/// Compresses batches of records with one engine.
#[derive(Clone, Copy)]
pub struct BatchCompressor {
    engine: CompressionEngine,
    batch_size: usize,
}

impl BatchCompressor {
    pub closed spec fn spec_engine(&self) -> CompressionEngine {
        self.engine
    }

    pub closed spec fn spec_batch_size(&self) -> usize {
        self.batch_size
    }

    /// An engine for the algorithm at its default level, and a batch size.
    pub fn new(algorithm: CompressionType, batch_size: usize) -> (res: Self)
        ensures
            res.spec_engine().spec_algorithm() == algorithm,
            res.spec_engine().spec_level() == default_level(algorithm),
            res.spec_batch_size() == batch_size,
    {
        BatchCompressor { engine: CompressionEngine::new(algorithm), batch_size }
    }

    pub fn engine(&self) -> (res: CompressionEngine)
        ensures
            res == self.spec_engine(),
    {
        self.engine
    }

    pub fn batch_size(&self) -> (res: usize)
        ensures
            res == self.spec_batch_size(),
    {
        self.batch_size
    }
}

} // verus!
