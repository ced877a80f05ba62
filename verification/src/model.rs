//! The noise-suppression model as it is shipped: a gzip-compressed tar
//! archive holding three ONNX networks and a `config.ini`. This module picks
//! the networks out of the archive and reads the signal-processing
//! configuration from the INI text.
use vstd::prelude::*;
use std::io::{Cursor, Read};
use flate2::read::GzDecoder;
use tar::Archive;
use crate::text::{parse_unsigned, parse_usize, IntErrorKind, spec_int_error_message};
use vstd::utf8::{valid_utf8, decode_utf8, encode_utf8};

verus! {

// ---------------------------------------------------------------------------
// Outside crates: flate2 + tar, std's lossy UTF-8 decoding, rust-ini.
// ---------------------------------------------------------------------------

/// One file of the model archive: its path inside the archive (lossily
/// converted to UTF-8) and its contents, or the text of the I/O error that
/// reading them gave.
pub struct ArchiveEntry {
    pub path: String,
    pub data: Result<Vec<u8>, String>,
}

/// Why the reading of the archive's entries stopped early.
pub enum ArchiveReadError {
    /// The archive's entries could not be listed.
    Entries,
    /// An entry could not be read (a corrupt or truncated stream).
    Entry,
    /// Reading an entry's path failed; the I/O error's text.
    Io(String),
}

/// Abstract view of an `ArchiveReadError`.
pub enum ArchiveReadErrorView {
    Entries,
    Entry,
    Io(Seq<char>),
}

impl View for ArchiveReadError {
    type V = ArchiveReadErrorView;

    open spec fn view(&self) -> ArchiveReadErrorView {
        match self {
            ArchiveReadError::Entries => ArchiveReadErrorView::Entries,
            ArchiveReadError::Entry => ArchiveReadErrorView::Entry,
            ArchiveReadError::Io(t) => ArchiveReadErrorView::Io(t@),
        }
    }
}

/// An entry as (path, contents or the I/O error's text).
pub type EntryView = (Seq<char>, Result<Seq<u8>, Seq<char>>);

/// The entries, in archive order, that `flate2` and `tar` read from the
/// gzip-compressed tar archive `archive`, and the failure that stopped the
/// reading early, if any.
pub uninterp spec fn gzip_tar_entries(archive: Seq<u8>) -> (Seq<EntryView>, Option<ArchiveReadErrorView>);

/// The view of one archive entry.
pub open spec fn entry_view(e: ArchiveEntry) -> EntryView {
    (
        e.path@,
        match e.data {
            Ok(d) => Ok(d@),
            Err(t) => Err(t@),
        },
    )
}

/// The view of a list of archive entries.
pub open spec fn entries_view(entries: Seq<ArchiveEntry>) -> Seq<EntryView> {
    entries.map_values(|e: ArchiveEntry| entry_view(e))
}

/// Reads the entries of a gzip-compressed tar archive held in memory:
/// `flate2::read::GzDecoder` decompresses, `tar::Archive::entries` walks the
/// entries, `Entry::path` gives each path (converted lossily to UTF-8) and
/// `read_to_end` its data, or the I/O error's text when that fails (the
/// walk then goes on to the next entry). A failure to list the entries, to
/// read an entry, or to read a path stops the walk and is returned beside
/// the entries read before it. The contract claims only that the outcome is
/// the named function `gzip_tar_entries` of the bytes.
#[verifier::external_body]
fn read_archive_entries(archive: &[u8]) -> (r: (Vec<ArchiveEntry>, Option<ArchiveReadError>))
    ensures
        gzip_tar_entries(archive@) == (entries_view(r.0@), match r.1 {
            Some(e) => Some(e@),
            None => None::<ArchiveReadErrorView>,
        }),
{
    let mut tar = Archive::new(GzDecoder::new(Cursor::new(archive)));
    let mut out = Vec::new();
    let Ok(entries) = tar.entries() else { return (out, Some(ArchiveReadError::Entries)) };
    for entry in entries {
        let Ok(mut file) = entry else { return (out, Some(ArchiveReadError::Entry)) };
        let path = match file.path() {
            Ok(p) => p.to_string_lossy().into_owned(),
            Err(e) => return (out, Some(ArchiveReadError::Io(e.to_string()))),
        };
        let mut data = Vec::new();
        let data = file.read_to_end(&mut data).map(|_| data).map_err(|e| e.to_string());
        out.push(ArchiveEntry { path, data });
    }
    (out, None)
}

/// The last component of `path` that `std::path::Path::file_name` gives,
/// or `None` when the path ends in `..` or has no name (by the path rules
/// of the platform the library is built for).
pub uninterp spec fn file_name_of(path: Seq<char>) -> Option<Seq<char>>;

/// `std::path::Path::file_name` of a path given as text; the contract only
/// names the result.
#[verifier::external_body]
fn path_file_name(path: &str) -> (r: Option<String>)
    ensures
        match r {
            Some(name) => file_name_of(path@) == Some(name@),
            None => file_name_of(path@) is None,
        },
{
    std::path::Path::new(path).file_name().map(|f| f.to_string_lossy().into_owned())
}

/// The name under which an entry is recognised: its file name, or the empty
/// text when its path has none.
pub open spec fn entry_name(path: Seq<char>) -> Seq<char> {
    match file_name_of(path) {
        Some(name) => name,
        None => Seq::empty(),
    }
}

/// What `String::from_utf8_lossy` makes of bytes that are not valid UTF-8
/// (each invalid sequence replaced by U+FFFD).
pub uninterp spec fn utf8_lossy_invalid(bytes: Seq<u8>) -> Seq<char>;

/// The text that `String::from_utf8_lossy` makes of `bytes`: valid UTF-8
/// is decoded unchanged.
pub open spec fn utf8_lossy(bytes: Seq<u8>) -> Seq<char> {
    if valid_utf8(bytes) {
        decode_utf8(bytes)
    } else {
        utf8_lossy_invalid(bytes)
    }
}

/// Decodes bytes as UTF-8 with `String::from_utf8_lossy`. The contract
/// states what std's documentation promises: valid UTF-8 comes back as the
/// text it encodes, and the text is empty exactly when the bytes are; what
/// replaces invalid sequences is only named.
#[verifier::external_body]
fn text_from_utf8_lossy(bytes: &[u8]) -> (r: String)
    ensures
        valid_utf8(bytes@) ==> r@ == decode_utf8(bytes@),
        !valid_utf8(bytes@) ==> r@ == utf8_lossy_invalid(bytes@),
        r@.len() == 0 <==> bytes@.len() == 0,
{
    String::from_utf8_lossy(bytes).into_owned()
}

#[verifier::external_type_specification]
#[verifier::external_body]
pub struct ExIni(ini::Ini);

/// The names of the named sections of a parsed INI document.
pub uninterp spec fn ini_section_names(ini: ini::Ini) -> Set<Seq<char>>;

/// What `Ini::get_from(Some(section), key)` finds in a parsed INI document:
/// the first value of `key` in the first section named `section`.
pub uninterp spec fn ini_values(ini: ini::Ini) -> Map<(Seq<char>, Seq<char>), Seq<char>>;

/// The section names and values that `Ini::load_from_str` reads from
/// `text`, or `None` when it reports a syntax error.
pub uninterp spec fn ini_document(text: Seq<char>) -> Option<(Set<Seq<char>>, Map<(Seq<char>, Seq<char>), Seq<char>>)>;

/// The INI text could not be parsed.
pub struct IniSyntaxError;

/// Parses INI text with `ini::Ini::load_from_str`. The contract states that
/// the parsed document's section names and values are the named result of
/// the text, and that an error comes exactly when that result is `None`.
#[verifier::external_body]
fn load_ini(text: &str) -> (r: Result<ini::Ini, IniSyntaxError>)
    ensures
        match r {
            Ok(doc) => ini_document(text@) == Some((ini_section_names(doc), ini_values(doc))),
            Err(_) => ini_document(text@) is None,
        },
{
    ini::Ini::load_from_str(text).map_err(|_| IniSyntaxError)
}

/// Whether the document has a section named `name`: `Ini::section(Some(name))`
/// finds one.
#[verifier::external_body]
fn ini_has_section(doc: &ini::Ini, name: &str) -> (b: bool)
    ensures
        b == ini_section_names(*doc).contains(name@),
{
    doc.section(Some(name)).is_some()
}

/// `Ini::get_from(Some(section), key)`: the value of `key` in the section
/// named `section`, if there is one.
#[verifier::external_body]
fn ini_get_from(doc: &ini::Ini, section: &str, key: &str) -> (r: Option<String>)
    ensures
        match r {
            Some(v) => ini_values(*doc).contains_key((section@, key@)) && ini_values(*doc)[(section@, key@)] == v@,
            None => !ini_values(*doc).contains_key((section@, key@)),
        },
{
    doc.get_from(Some(section), key).map(|v| v.to_string())
}

// ---------------------------------------------------------------------------
// Picking the networks and the configuration out of the archive.
// ---------------------------------------------------------------------------

/// What the archive contributes: the bytes of each network (entries with
/// the same file name are concatenated, in archive order) and the text of
/// the last `config.ini` (empty when there is none).
pub struct ArchiveContents {
    pub encoder: Seq<u8>,
    pub erb_decoder: Seq<u8>,
    pub df_decoder: Seq<u8>,
    pub config_text: Seq<char>,
}

/// File names beginning with `._` are metadata that some archivers add;
/// they are skipped.
pub open spec fn is_metadata_name(name: Seq<char>) -> bool {
    name.len() >= 2 && name[0] == '.' && name[1] == '_'
}

/// The file names whose contents the loader reads.
pub open spec fn is_model_file(name: Seq<char>) -> bool {
    name == "enc.onnx"@ || name == "erb_dec.onnx"@ || name == "df_dec.onnx"@ || name == "config.ini"@
}

/// The contents after adding the data of a model file named `name`.
pub open spec fn add_file(acc: ArchiveContents, name: Seq<char>, data: Seq<u8>) -> ArchiveContents {
    if name == "enc.onnx"@ {
        ArchiveContents { encoder: acc.encoder + data, ..acc }
    } else if name == "erb_dec.onnx"@ {
        ArchiveContents { erb_decoder: acc.erb_decoder + data, ..acc }
    } else if name == "df_dec.onnx"@ {
        ArchiveContents { df_decoder: acc.df_decoder + data, ..acc }
    } else {
        ArchiveContents { config_text: utf8_lossy(data), ..acc }
    }
}

/// The contents after taking one more entry, found at `path`, into account:
/// metadata and unknown files are passed over without their data; a model
/// file whose data could not be read ends the collection with the I/O
/// error's text.
pub open spec fn add_entry(
    acc: Result<ArchiveContents, Seq<char>>,
    path: Seq<char>,
    data: Result<Seq<u8>, Seq<char>>,
) -> Result<ArchiveContents, Seq<char>> {
    let name = entry_name(path);
    match acc {
        Err(t) => Err(t),
        Ok(files) => if is_metadata_name(name) || !is_model_file(name) {
            Ok(files)
        } else {
            match data {
                Err(t) => Err(t),
                Ok(d) => Ok(add_file(files, name, d)),
            }
        },
    }
}

/// The contents of a whole list of entries, taken in order.
pub open spec fn archive_contents(entries: Seq<EntryView>) -> Result<ArchiveContents, Seq<char>>
    decreases entries.len(),
{
    if entries.len() == 0 {
        Ok(
            ArchiveContents {
                encoder: Seq::empty(),
                erb_decoder: Seq::empty(),
                df_decoder: Seq::empty(),
                config_text: Seq::empty(),
            },
        )
    } else {
        add_entry(archive_contents(entries.drop_last()), entries.last().0, entries.last().1)
    }
}

/// The entries without those whose file name marks them as metadata.
pub open spec fn without_metadata(entries: Seq<EntryView>) -> Seq<EntryView>
    decreases entries.len(),
{
    if entries.len() == 0 {
        entries
    } else if is_metadata_name(entry_name(entries.last().0)) {
        without_metadata(entries.drop_last())
    } else {
        without_metadata(entries.drop_last()).push(entries.last())
    }
}

// ---------------------------------------------------------------------------
// Configuration.
// ---------------------------------------------------------------------------

/// The configuration keys that the model loader reads.
#[derive(PartialEq, Eq, Structural, Clone, Copy, Debug)]
pub enum ConfigKey {
    Sr,
    HopSize,
    FftSize,
    NbErb,
    NbDf,
    MinNbErbFreqs,
    DfOrder,
    ConvLookahead,
    DfLookahead,
    NormTau,
}

/// The two sections of `config.ini` that the loader reads.
#[derive(PartialEq, Eq, Structural, Clone, Copy, Debug)]
pub enum ConfigSection {
    /// `[df]`: signal-processing parameters.
    Df,
    /// `[deepfilternet]`: network parameters.
    DeepFilterNet,
}

/// Why a model could not be loaded.
#[derive(Clone, Debug, PartialEq, Eq)]
pub enum ModelError {
    /// The archive's entries could not be listed.
    ArchiveUnreadable,
    /// An entry of the archive could not be read.
    ArchiveEntryUnreadable,
    /// Reading an entry's path or data failed; the I/O error's text.
    ArchiveIo(String),
    /// No non-empty `config.ini` in the archive.
    MissingConfigFile,
    /// `config.ini` is not valid INI.
    ConfigSyntax,
    /// One of the three networks is missing or empty.
    MissingOnnxFiles,
    /// A required section is missing from `config.ini`.
    MissingSection(ConfigSection),
    /// A required key is missing.
    MissingKey(ConfigKey),
    /// A key's value is not an unsigned number that fits a `usize`.
    InvalidNumber(ConfigKey, IntErrorKind),
}

/// Abstract view of a `ModelError`.
pub enum ModelErrorView {
    ArchiveUnreadable,
    ArchiveEntryUnreadable,
    ArchiveIo(Seq<char>),
    MissingConfigFile,
    ConfigSyntax,
    MissingOnnxFiles,
    MissingSection(ConfigSection),
    MissingKey(ConfigKey),
    InvalidNumber(ConfigKey, IntErrorKind),
}

impl View for ModelError {
    type V = ModelErrorView;

    open spec fn view(&self) -> ModelErrorView {
        match self {
            ModelError::ArchiveUnreadable => ModelErrorView::ArchiveUnreadable,
            ModelError::ArchiveEntryUnreadable => ModelErrorView::ArchiveEntryUnreadable,
            ModelError::ArchiveIo(t) => ModelErrorView::ArchiveIo(t@),
            ModelError::MissingConfigFile => ModelErrorView::MissingConfigFile,
            ModelError::ConfigSyntax => ModelErrorView::ConfigSyntax,
            ModelError::MissingOnnxFiles => ModelErrorView::MissingOnnxFiles,
            ModelError::MissingSection(sec) => ModelErrorView::MissingSection(*sec),
            ModelError::MissingKey(k) => ModelErrorView::MissingKey(*k),
            ModelError::InvalidNumber(k, kind) => ModelErrorView::InvalidNumber(*k, *kind),
        }
    }
}

/// The INI name of a section.
pub open spec fn spec_section_name(s: ConfigSection) -> Seq<char> {
    match s {
        ConfigSection::Df => "df"@,
        ConfigSection::DeepFilterNet => "deepfilternet"@,
    }
}

/// The INI name of a key.
pub open spec fn spec_key_name(k: ConfigKey) -> Seq<char> {
    match k {
        ConfigKey::Sr => "sr"@,
        ConfigKey::HopSize => "hop_size"@,
        ConfigKey::FftSize => "fft_size"@,
        ConfigKey::NbErb => "nb_erb"@,
        ConfigKey::NbDf => "nb_df"@,
        ConfigKey::MinNbErbFreqs => "min_nb_erb_freqs"@,
        ConfigKey::DfOrder => "df_order"@,
        ConfigKey::ConvLookahead => "conv_lookahead"@,
        ConfigKey::DfLookahead => "df_lookahead"@,
        ConfigKey::NormTau => "norm_tau"@,
    }
}

/// The value stored under (`section`, `key`), if any.
pub open spec fn lookup(
    values: Map<(Seq<char>, Seq<char>), Seq<char>>,
    section: Seq<char>,
    key: Seq<char>,
) -> Option<Seq<char>> {
    if values.contains_key((section, key)) {
        Some(values[(section, key)])
    } else {
        None
    }
}

/// Where a numeric key is looked up: `[df]` first for every key but
/// `conv_lookahead`, which lives in `[deepfilternet]`; `df_order` and
/// `df_lookahead` fall back to `[deepfilternet]` when `[df]` lacks them.
pub open spec fn key_value(values: Map<(Seq<char>, Seq<char>), Seq<char>>, k: ConfigKey) -> Option<Seq<char>> {
    let df = spec_section_name(ConfigSection::Df);
    let net = spec_section_name(ConfigSection::DeepFilterNet);
    let name = spec_key_name(k);
    match k {
        ConfigKey::ConvLookahead => lookup(values, net, name),
        ConfigKey::DfOrder | ConfigKey::DfLookahead => match lookup(values, df, name) {
            Some(v) => Some(v),
            None => lookup(values, net, name),
        },
        _ => lookup(values, df, name),
    }
}

/// A numeric key's value, or the error that reading it gives.
pub open spec fn spec_field(values: Map<(Seq<char>, Seq<char>), Seq<char>>, k: ConfigKey) -> Result<usize, ModelErrorView> {
    match key_value(values, k) {
        None => Err(ModelErrorView::MissingKey(k)),
        Some(text) => match parse_unsigned(text, usize::MAX as nat) {
            Ok(v) => Ok(v as usize),
            Err(kind) => Err(ModelErrorView::InvalidNumber(k, kind)),
        },
    }
}

/// How the running normalisation's decay is given.
pub enum NormSetting {
    /// `norm_alpha`: the decay factor itself (decimal text).
    Alpha(String),
    /// `norm_tau`: a time constant in seconds (decimal text), from which the
    /// decay factor is derived with the sample rate and hop size.
    Tau(String),
}

/// Abstract view of a `NormSetting`.
pub enum NormView {
    Alpha(Seq<char>),
    Tau(Seq<char>),
}

impl View for NormSetting {
    type V = NormView;

    open spec fn view(&self) -> NormView {
        match self {
            NormSetting::Alpha(t) => NormView::Alpha(t@),
            NormSetting::Tau(t) => NormView::Tau(t@),
        }
    }
}

/// `norm_alpha` from `[df]` when present, otherwise `norm_tau` from `[df]`.
pub open spec fn spec_norm(values: Map<(Seq<char>, Seq<char>), Seq<char>>) -> Result<NormView, ModelErrorView> {
    let df = spec_section_name(ConfigSection::Df);
    match lookup(values, df, "norm_alpha"@) {
        Some(t) => Ok(NormView::Alpha(t)),
        None => match lookup(values, df, spec_key_name(ConfigKey::NormTau)) {
            Some(t) => Ok(NormView::Tau(t)),
            None => Err(ModelErrorView::MissingKey(ConfigKey::NormTau)),
        },
    }
}

/// Signal-processing configuration of the model.
pub struct DfConfig {
    pub sr: usize,
    pub hop_size: usize,
    pub fft_size: usize,
    pub nb_erb: usize,
    pub nb_df: usize,
    pub min_nb_erb_freqs: usize,
    pub df_order: usize,
    pub conv_lookahead: usize,
    pub df_lookahead: usize,
    pub norm: NormSetting,
}

/// Abstract view of a `DfConfig`.
pub struct DfConfigView {
    pub sr: usize,
    pub hop_size: usize,
    pub fft_size: usize,
    pub nb_erb: usize,
    pub nb_df: usize,
    pub min_nb_erb_freqs: usize,
    pub df_order: usize,
    pub conv_lookahead: usize,
    pub df_lookahead: usize,
    pub norm: NormView,
}

impl View for DfConfig {
    type V = DfConfigView;

    open spec fn view(&self) -> DfConfigView {
        DfConfigView {
            sr: self.sr,
            hop_size: self.hop_size,
            fft_size: self.fft_size,
            nb_erb: self.nb_erb,
            nb_df: self.nb_df,
            min_nb_erb_freqs: self.min_nb_erb_freqs,
            df_order: self.df_order,
            conv_lookahead: self.conv_lookahead,
            df_lookahead: self.df_lookahead,
            norm: self.norm@,
        }
    }
}

/// The configuration that a parsed `config.ini` gives: both sections must
/// exist, then the keys are read in this order and the first that is
/// missing or not a number is reported, then the normalisation setting.
pub open spec fn spec_df_config(
    sections: Set<Seq<char>>,
    values: Map<(Seq<char>, Seq<char>), Seq<char>>,
) -> Result<DfConfigView, ModelErrorView> {
    let sr = spec_field(values, ConfigKey::Sr);
    let hop = spec_field(values, ConfigKey::HopSize);
    let fft = spec_field(values, ConfigKey::FftSize);
    let erb = spec_field(values, ConfigKey::NbErb);
    let nb_df = spec_field(values, ConfigKey::NbDf);
    let min_erb = spec_field(values, ConfigKey::MinNbErbFreqs);
    let order = spec_field(values, ConfigKey::DfOrder);
    let conv = spec_field(values, ConfigKey::ConvLookahead);
    let df_la = spec_field(values, ConfigKey::DfLookahead);
    let norm = spec_norm(values);
    if !sections.contains(spec_section_name(ConfigSection::Df)) {
        Err(ModelErrorView::MissingSection(ConfigSection::Df))
    } else if !sections.contains(spec_section_name(ConfigSection::DeepFilterNet)) {
        Err(ModelErrorView::MissingSection(ConfigSection::DeepFilterNet))
    } else if sr is Err {
        Err(sr->Err_0)
    } else if hop is Err {
        Err(hop->Err_0)
    } else if fft is Err {
        Err(fft->Err_0)
    } else if erb is Err {
        Err(erb->Err_0)
    } else if nb_df is Err {
        Err(nb_df->Err_0)
    } else if min_erb is Err {
        Err(min_erb->Err_0)
    } else if order is Err {
        Err(order->Err_0)
    } else if conv is Err {
        Err(conv->Err_0)
    } else if df_la is Err {
        Err(df_la->Err_0)
    } else if norm is Err {
        Err(norm->Err_0)
    } else {
        Ok(DfConfigView {
            sr: sr->Ok_0,
            hop_size: hop->Ok_0,
            fft_size: fft->Ok_0,
            nb_erb: erb->Ok_0,
            nb_df: nb_df->Ok_0,
            min_nb_erb_freqs: min_erb->Ok_0,
            df_order: order->Ok_0,
            conv_lookahead: conv->Ok_0,
            df_lookahead: df_la->Ok_0,
            norm: norm->Ok_0,
        })
    }
}

/// The three networks and the configuration of a loaded model.
pub struct ModelFiles {
    pub encoder: Vec<u8>,
    pub erb_decoder: Vec<u8>,
    pub df_decoder: Vec<u8>,
    pub config: DfConfig,
}

/// Abstract view of `ModelFiles`.
pub struct ModelFilesView {
    pub encoder: Seq<u8>,
    pub erb_decoder: Seq<u8>,
    pub df_decoder: Seq<u8>,
    pub config: DfConfigView,
}

impl View for ModelFiles {
    type V = ModelFilesView;

    open spec fn view(&self) -> ModelFilesView {
        ModelFilesView {
            encoder: self.encoder@,
            erb_decoder: self.erb_decoder@,
            df_decoder: self.df_decoder@,
            config: self.config@,
        }
    }
}

/// What loading the model archive `archive` gives. The checks come in this
/// order: the entries must be readable, the data of each model file among
/// them too; `config.ini` must be present and non-empty; it must parse as
/// INI; the three networks must be present and non-empty; the
/// configuration must be complete.
pub open spec fn spec_load_model(archive: Seq<u8>) -> Result<ModelFilesView, ModelErrorView> {
    spec_load_entries(gzip_tar_entries(archive).0, gzip_tar_entries(archive).1)
}

/// What loading gives for the entries read from an archive and the failure
/// that stopped the reading, if any.
pub open spec fn spec_load_entries(entries: Seq<EntryView>, stop: Option<ArchiveReadErrorView>) -> Result<
    ModelFilesView,
    ModelErrorView,
> {
    match archive_contents(entries) {
        Err(text) => Err(ModelErrorView::ArchiveIo(text)),
        Ok(files) => match stop {
            Some(ArchiveReadErrorView::Entries) => Err(ModelErrorView::ArchiveUnreadable),
            Some(ArchiveReadErrorView::Entry) => Err(ModelErrorView::ArchiveEntryUnreadable),
            Some(ArchiveReadErrorView::Io(text)) => Err(ModelErrorView::ArchiveIo(text)),
            None => spec_load_files(files),
        },
    }
}

/// What loading gives once the archive's contents have been collected.
pub open spec fn spec_load_files(files: ArchiveContents) -> Result<ModelFilesView, ModelErrorView> {
    if files.config_text.len() == 0 {
        Err(ModelErrorView::MissingConfigFile)
    } else {
        match ini_document(files.config_text) {
            None => Err(ModelErrorView::ConfigSyntax),
            Some(doc) => if files.encoder.len() == 0 || files.erb_decoder.len() == 0
                || files.df_decoder.len() == 0 {
                Err(ModelErrorView::MissingOnnxFiles)
            } else {
                match spec_df_config(doc.0, doc.1) {
                    Err(e) => Err(e),
                    Ok(config) => Ok(
                        ModelFilesView {
                            encoder: files.encoder,
                            erb_decoder: files.erb_decoder,
                            df_decoder: files.df_decoder,
                            config,
                        },
                    ),
                }
            },
        }
    }
}

impl ConfigSection {
    /// The section's name in `config.ini`.
    pub fn name(&self) -> (s: &'static str)
        ensures
            s@ == spec_section_name(*self),
    {
        match self {
            ConfigSection::Df => "df",
            ConfigSection::DeepFilterNet => "deepfilternet",
        }
    }
}

impl ConfigKey {
    /// The key's name in `config.ini`.
    pub fn name(&self) -> (s: &'static str)
        ensures
            s@ == spec_key_name(*self),
    {
        match self {
            ConfigKey::Sr => "sr",
            ConfigKey::HopSize => "hop_size",
            ConfigKey::FftSize => "fft_size",
            ConfigKey::NbErb => "nb_erb",
            ConfigKey::NbDf => "nb_df",
            ConfigKey::MinNbErbFreqs => "min_nb_erb_freqs",
            ConfigKey::DfOrder => "df_order",
            ConfigKey::ConvLookahead => "conv_lookahead",
            ConfigKey::DfLookahead => "df_lookahead",
            ConfigKey::NormTau => "norm_tau",
        }
    }
}

/// Reads one numeric key of the configuration.
fn config_field(doc: &ini::Ini, k: ConfigKey) -> (r: Result<usize, ModelError>)
    ensures
        match r {
            Ok(v) => spec_field(ini_values(*doc), k) == Ok::<usize, ModelErrorView>(v),
            Err(e) => spec_field(ini_values(*doc), k) == Err::<usize, ModelErrorView>(e@),
        },
{
    let df = ConfigSection::Df.name();
    let net = ConfigSection::DeepFilterNet.name();
    let name = k.name();
    let found = match k {
        ConfigKey::ConvLookahead => ini_get_from(doc, net, name),
        ConfigKey::DfOrder | ConfigKey::DfLookahead => match ini_get_from(doc, df, name) {
            Some(v) => Some(v),
            None => ini_get_from(doc, net, name),
        },
        _ => ini_get_from(doc, df, name),
    };
    match found {
        None => Err(ModelError::MissingKey(k)),
        Some(text) => match parse_usize(text.as_str()) {
            Ok(v) => Ok(v),
            Err(kind) => Err(ModelError::InvalidNumber(k, kind)),
        },
    }
}

/// Reads the normalisation setting.
fn config_norm(doc: &ini::Ini) -> (r: Result<NormSetting, ModelError>)
    ensures
        match r {
            Ok(n) => spec_norm(ini_values(*doc)) == Ok::<NormView, ModelErrorView>(n@),
            Err(e) => spec_norm(ini_values(*doc)) == Err::<NormView, ModelErrorView>(e@),
        },
{
    let df = ConfigSection::Df.name();
    match ini_get_from(doc, df, "norm_alpha") {
        Some(t) => Ok(NormSetting::Alpha(t)),
        None => match ini_get_from(doc, df, ConfigKey::NormTau.name()) {
            Some(t) => Ok(NormSetting::Tau(t)),
            None => Err(ModelError::MissingKey(ConfigKey::NormTau)),
        },
    }
}

/// Reads the whole configuration from a parsed `config.ini`.
pub fn read_df_config(doc: &ini::Ini) -> (r: Result<DfConfig, ModelError>)
    ensures
        match r {
            Ok(c) => spec_df_config(ini_section_names(*doc), ini_values(*doc)) == Ok::<DfConfigView, ModelErrorView>(
                c@,
            ),
            Err(e) => spec_df_config(ini_section_names(*doc), ini_values(*doc)) == Err::<
                DfConfigView,
                ModelErrorView,
            >(e@),
        },
{
    if !ini_has_section(doc, ConfigSection::Df.name()) {
        return Err(ModelError::MissingSection(ConfigSection::Df));
    }
    if !ini_has_section(doc, ConfigSection::DeepFilterNet.name()) {
        return Err(ModelError::MissingSection(ConfigSection::DeepFilterNet));
    }
    let sr = match config_field(doc, ConfigKey::Sr) { Ok(v) => v, Err(e) => return Err(e) };
    let hop_size = match config_field(doc, ConfigKey::HopSize) { Ok(v) => v, Err(e) => return Err(e) };
    let fft_size = match config_field(doc, ConfigKey::FftSize) { Ok(v) => v, Err(e) => return Err(e) };
    let nb_erb = match config_field(doc, ConfigKey::NbErb) { Ok(v) => v, Err(e) => return Err(e) };
    let nb_df = match config_field(doc, ConfigKey::NbDf) { Ok(v) => v, Err(e) => return Err(e) };
    let min_nb_erb_freqs = match config_field(doc, ConfigKey::MinNbErbFreqs) {
        Ok(v) => v,
        Err(e) => return Err(e),
    };
    let df_order = match config_field(doc, ConfigKey::DfOrder) { Ok(v) => v, Err(e) => return Err(e) };
    let conv_lookahead = match config_field(doc, ConfigKey::ConvLookahead) {
        Ok(v) => v,
        Err(e) => return Err(e),
    };
    let df_lookahead = match config_field(doc, ConfigKey::DfLookahead) {
        Ok(v) => v,
        Err(e) => return Err(e),
    };
    let norm = match config_norm(doc) { Ok(n) => n, Err(e) => return Err(e) };
    Ok(DfConfig {
        sr,
        hop_size,
        fft_size,
        nb_erb,
        nb_df,
        min_nb_erb_freqs,
        df_order,
        conv_lookahead,
        df_lookahead,
        norm,
    })
}

/// The networks and configuration text collected from an archive's entries.
pub struct ArchiveFiles {
    pub encoder: Vec<u8>,
    pub erb_decoder: Vec<u8>,
    pub df_decoder: Vec<u8>,
    pub config_text: String,
}

impl View for ArchiveFiles {
    type V = ArchiveContents;

    open spec fn view(&self) -> ArchiveContents {
        ArchiveContents {
            encoder: self.encoder@,
            erb_decoder: self.erb_decoder@,
            df_decoder: self.df_decoder@,
            config_text: self.config_text@,
        }
    }
}

/// Goes through the archive's entries in order, recognising each by its
/// file name: metadata and unknown files are skipped, the parts of each
/// network are concatenated, and the last `config.ini` is decoded as (lossy)
/// UTF-8. The first network or `config.ini` whose data could not be read
/// ends the collection with its I/O error's text.
pub fn collect_archive_entries(entries: Vec<ArchiveEntry>) -> (r: Result<ArchiveFiles, String>)
    ensures
        match r {
            Ok(files) => archive_contents(entries_view(entries@)) == Ok::<ArchiveContents, Seq<char>>(files@),
            Err(text) => archive_contents(entries_view(entries@)) == Err::<ArchiveContents, Seq<char>>(text@),
        },
{
    let ghost ev = entries_view(entries@);
    let enc_name = String::from_str("enc.onnx");
    let erb_name = String::from_str("erb_dec.onnx");
    let df_name = String::from_str("df_dec.onnx");
    let config_name = String::from_str("config.ini");
    let mut encoder: Vec<u8> = Vec::new();
    let mut erb_decoder: Vec<u8> = Vec::new();
    let mut df_decoder: Vec<u8> = Vec::new();
    let mut config_text = String::new();
    let count = entries.len();
    assert(ev.len() == entries@.len());
    assert(ev.len() == count);
    let mut rest = entries;
    let mut done: usize = 0;
    while rest.len() > 0
        invariant
            done <= ev.len(),
            ev.len() <= usize::MAX,
            ev == entries_view(entries@),
            entries_view(rest@) == ev.subrange(done as int, ev.len() as int),
            enc_name@ == "enc.onnx"@,
            erb_name@ == "erb_dec.onnx"@,
            df_name@ == "df_dec.onnx"@,
            config_name@ == "config.ini"@,
            archive_contents(ev.subrange(0, done as int)) == Ok::<ArchiveContents, Seq<char>>(
                ArchiveContents {
                    encoder: encoder@,
                    erb_decoder: erb_decoder@,
                    df_decoder: df_decoder@,
                    config_text: config_text@,
                },
            ),
        decreases rest@.len(),
    {
        let ghost before = rest@;
        assert(entries_view(before).len() == before.len());
        assert(done < ev.len());
        assert(ev.subrange(done as int, ev.len() as int)[0] == ev[done as int]);
        let entry = rest.remove(0);
        proof {
            assert(entries_view(before)[0] == entry_view(entry));
            assert(ev[done as int] == entries_view(before)[0]);
            assert(ev.subrange(0, done + 1).drop_last() == ev.subrange(0, done as int));
            assert(entries_view(rest@) == entries_view(before).drop_first());
        }
        let ArchiveEntry { path, data } = entry;
        let name = match path_file_name(path.as_str()) {
            Some(n) => n,
            None => String::new(),
        };
        assert(name@ == entry_name(path@));
        let wanted = name == enc_name || name == erb_name || name == df_name || name == config_name;
        if !has_metadata_prefix(name.as_str()) && wanted {
            let mut bytes = match data {
                Ok(bytes) => bytes,
                Err(text) => {
                    proof {
                        assert(ev.subrange(0, done + 1).drop_last() == ev.subrange(0, done as int));
                        assert(ev.subrange(0, done + 1).last() == ev[done as int]);
                        assert(archive_contents(ev.subrange(0, done + 1)) == Err::<ArchiveContents, Seq<char>>(
                            text@,
                        ));
                        lemma_collection_stays_ended(ev, done + 1);
                    }
                    return Err(text);
                },
            };
            if name == enc_name {
                encoder.append(&mut bytes);
            } else if name == erb_name {
                erb_decoder.append(&mut bytes);
            } else if name == df_name {
                df_decoder.append(&mut bytes);
            } else {
                config_text = text_from_utf8_lossy(bytes.as_slice());
            }
        }
        done = done + 1;
    }
    assert(ev.subrange(0, done as int) == ev);
    Ok(ArchiveFiles { encoder, erb_decoder, df_decoder, config_text })
}

/// Once the collection has ended with an error, later entries do not change
/// it.
proof fn lemma_collection_stays_ended(entries: Seq<EntryView>, k: int)
    requires
        0 <= k <= entries.len(),
        archive_contents(entries.subrange(0, k)) is Err,
    ensures
        archive_contents(entries) == archive_contents(entries.subrange(0, k)),
    decreases entries.len() - k,
{
    if k < entries.len() {
        let p = entries.subrange(0, k + 1);
        assert(p.drop_last() == entries.subrange(0, k));
        lemma_collection_stays_ended(entries, k + 1);
    } else {
        assert(entries.subrange(0, k) == entries);
    }
}

/// Whether a file name begins with `._`.
fn has_metadata_prefix(name: &str) -> (b: bool)
    ensures
        b == is_metadata_name(name@),
{
    name.unicode_len() >= 2 && name.get_char(0) == '.' && name.get_char(1) == '_'
}

/// The error with which loading stops when the reading of the entries
/// stopped early.
fn read_error(e: ArchiveReadError) -> (m: ModelError)
    ensures
        spec_load_entries(Seq::empty(), Some(e@)) == Err::<ModelFilesView, ModelErrorView>(m@),
{
    match e {
        ArchiveReadError::Entries => ModelError::ArchiveUnreadable,
        ArchiveReadError::Entry => ModelError::ArchiveEntryUnreadable,
        ArchiveReadError::Io(text) => ModelError::ArchiveIo(text),
    }
}

/// Loads the model archive: reads its entries, collects the three networks
/// and `config.ini`, and reads the configuration. The result is exactly
/// `spec_load_model` of the archive bytes, an error included.
pub fn load_model(model_bytes: &[u8]) -> (r: Result<ModelFiles, ModelError>)
    ensures
        match r {
            Ok(files) => spec_load_model(model_bytes@) == Ok::<ModelFilesView, ModelErrorView>(files@),
            Err(e) => spec_load_model(model_bytes@) == Err::<ModelFilesView, ModelErrorView>(e@),
        },
{
    let (entries, stop) = read_archive_entries(model_bytes);
    let files = match collect_archive_entries(entries) {
        Ok(files) => files,
        Err(text) => return Err(ModelError::ArchiveIo(text)),
    };
    match stop {
        Some(e) => return Err(read_error(e)),
        None => {},
    }
    let ArchiveFiles { encoder, erb_decoder, df_decoder, config_text } = files;
    if config_text.as_str().is_empty() {
        return Err(ModelError::MissingConfigFile);
    }
    let doc = match load_ini(config_text.as_str()) {
        Ok(doc) => doc,
        Err(_) => return Err(ModelError::ConfigSyntax),
    };
    if encoder.len() == 0 || erb_decoder.len() == 0 || df_decoder.len() == 0 {
        return Err(ModelError::MissingOnnxFiles);
    }
    let config = match read_df_config(&doc) {
        Ok(c) => c,
        Err(e) => return Err(e),
    };
    Ok(ModelFiles { encoder, erb_decoder, df_decoder, config })
}

/// Metadata entries (file names beginning with `._`) leave the archive's
/// contents as they are, wherever they occur and whether or not their data
/// could be read: the contents are those of the other entries alone.
pub proof fn law_metadata_entries_ignored(entries: Seq<EntryView>)
    ensures
        archive_contents(entries) == archive_contents(without_metadata(entries)),
    decreases entries.len(),
{
    if entries.len() > 0 {
        let init = entries.drop_last();
        law_metadata_entries_ignored(init);
        if !is_metadata_name(entry_name(entries.last().0)) {
            let w = without_metadata(init);
            assert(w.push(entries.last()).drop_last() == w);
        }
    }
}

/// Two archives whose entries agree once metadata entries are left out, and
/// whose reading stopped alike, load alike: the same networks and
/// configuration, or the same error.
pub proof fn law_metadata_entries_do_not_change_load(a: Seq<u8>, b: Seq<u8>)
    requires
        gzip_tar_entries(a).1 == gzip_tar_entries(b).1,
        without_metadata(gzip_tar_entries(a).0) == without_metadata(gzip_tar_entries(b).0),
    ensures
        spec_load_model(a) == spec_load_model(b),
{
    law_metadata_entries_ignored(gzip_tar_entries(a).0);
    law_metadata_entries_ignored(gzip_tar_entries(b).0);
}

/// What one more entry does: a later `config.ini` replaces an earlier one;
/// later parts of a network are appended to the earlier ones; a network or
/// `config.ini` whose data could not be read ends the collection with the
/// I/O error's text; any other file leaves the contents as they are, its
/// data unread; and once the collection has ended, it stays ended.
pub proof fn law_archive_entry_effects(
    entries: Seq<EntryView>,
    path: Seq<char>,
    data: Result<Seq<u8>, Seq<char>>,
)
    ensures
        archive_contents(entries) is Err ==> archive_contents(entries.push((path, data))) == archive_contents(
            entries,
        ),
        archive_contents(entries) is Ok && entry_name(path) == "config.ini"@ && data is Ok ==> archive_contents(
            entries.push((path, data)),
        ) == Ok::<ArchiveContents, Seq<char>>(
            ArchiveContents { config_text: utf8_lossy(data->Ok_0), ..archive_contents(entries)->Ok_0 },
        ),
        archive_contents(entries) is Ok && entry_name(path) == "enc.onnx"@ && data is Ok ==> archive_contents(
            entries.push((path, data)),
        ) == Ok::<ArchiveContents, Seq<char>>(
            ArchiveContents {
                encoder: archive_contents(entries)->Ok_0.encoder + data->Ok_0,
                ..archive_contents(entries)->Ok_0
            },
        ),
        archive_contents(entries) is Ok && is_model_file(entry_name(path)) && data is Err ==> archive_contents(
            entries.push((path, data)),
        ) == Err::<ArchiveContents, Seq<char>>(data->Err_0),
        !is_model_file(entry_name(path)) ==> archive_contents(entries.push((path, data))) == archive_contents(
            entries,
        ),
{
    reveal_strlit("config.ini");
    reveal_strlit("enc.onnx");
    reveal_strlit("erb_dec.onnx");
    reveal_strlit("df_dec.onnx");
    assert(entries.push((path, data)).drop_last() == entries);
    assert(!is_metadata_name("config.ini"@));
    assert(!is_metadata_name("enc.onnx"@));
    assert(!is_metadata_name("erb_dec.onnx"@));
    assert(!is_metadata_name("df_dec.onnx"@));
    assert("config.ini"@.len() != "erb_dec.onnx"@.len());
    assert("config.ini"@.len() != "df_dec.onnx"@.len());
    assert("config.ini"@ != "enc.onnx"@) by {
        assert("config.ini"@.len() != "enc.onnx"@.len());
    }
}

/// Replacing the bytes of a `config.ini` by the UTF-8 encoding of their
/// lossy decoding changes nothing: invalid UTF-8 in `config.ini` reads as
/// its repaired text.
pub proof fn law_repaired_config_reads_alike(entries: Seq<EntryView>, i: int)
    requires
        0 <= i < entries.len(),
        entry_name(entries[i].0) == "config.ini"@,
        entries[i].1 is Ok,
    ensures
        archive_contents(
            entries.update(i, (entries[i].0, Ok(encode_utf8(utf8_lossy(entries[i].1->Ok_0))))),
        ) == archive_contents(entries),
    decreases entries.len(),
{
    broadcast use vstd::utf8::encode_utf8_valid_utf8, vstd::utf8::encode_utf8_decode_utf8;

    let repaired = entries.update(i, (entries[i].0, Ok(encode_utf8(utf8_lossy(entries[i].1->Ok_0)))));
    let n = entries.len() - 1;
    if i == n {
        assert(repaired.drop_last() == entries.drop_last());
        reveal_strlit("config.ini");
        reveal_strlit("enc.onnx");
        reveal_strlit("erb_dec.onnx");
        reveal_strlit("df_dec.onnx");
        assert(!is_metadata_name("config.ini"@));
        assert("config.ini"@.len() != "erb_dec.onnx"@.len());
        assert("config.ini"@.len() != "df_dec.onnx"@.len());
        assert("config.ini"@.len() != "enc.onnx"@.len());
        assert(utf8_lossy(encode_utf8(utf8_lossy(entries[i].1->Ok_0))) == utf8_lossy(entries[i].1->Ok_0));
    } else {
        law_repaired_config_reads_alike(entries.drop_last(), i);
        assert(repaired.drop_last() == entries.drop_last().update(
            i,
            (entries[i].0, Ok(encode_utf8(utf8_lossy(entries[i].1->Ok_0)))),
        ));
        assert(repaired.last() == entries.last());
    }
}

/// Two archives that differ only in the bytes of a `config.ini`, one
/// holding the UTF-8 encoding of the other's lossy decoding, load alike.
pub proof fn law_repaired_config_loads_alike(a: Seq<u8>, b: Seq<u8>, i: int)
    requires
        0 <= i < gzip_tar_entries(b).0.len(),
        entry_name(gzip_tar_entries(b).0[i].0) == "config.ini"@,
        gzip_tar_entries(b).0[i].1 is Ok,
        gzip_tar_entries(a) == (
            gzip_tar_entries(b).0.update(
                i,
                (
                    gzip_tar_entries(b).0[i].0,
                    Ok::<Seq<u8>, Seq<char>>(encode_utf8(utf8_lossy(gzip_tar_entries(b).0[i].1->Ok_0))),
                ),
            ),
            gzip_tar_entries(b).1,
        ),
    ensures
        spec_load_model(a) == spec_load_model(b),
{
    law_repaired_config_reads_alike(gzip_tar_entries(b).0, i);
}

/// An archive whose last `config.ini` is empty is reported as having none
/// (unless reading it failed before that check).
pub proof fn law_empty_config_is_missing(entries: Seq<EntryView>, path: Seq<char>, later: Seq<EntryView>)
    requires
        entry_name(path) == "config.ini"@,
        forall|j: int| 0 <= j < later.len() ==> entry_name(#[trigger] later[j].0) != "config.ini"@,
    ensures
        ({
            let all = entries.push((path, Ok(Seq::empty()))) + later;
            archive_contents(all) is Ok ==> spec_load_entries(all, None) == Err::<ModelFilesView, ModelErrorView>(
                ModelErrorView::MissingConfigFile,
            )
        }),
{
    let with_config = entries.push((path, Ok(Seq::<u8>::empty())));
    lemma_config_text_kept(with_config, later);
    law_archive_entry_effects(entries, path, Ok(Seq::<u8>::empty()));
    assert(valid_utf8(Seq::<u8>::empty()));
    if archive_contents(entries) is Err {
        assert(archive_contents(with_config) is Err);
    }
}

/// Entries whose file name is not `config.ini` leave the configuration text
/// as it is, when the collection does not end.
proof fn lemma_config_text_kept(entries: Seq<EntryView>, later: Seq<EntryView>)
    requires
        forall|j: int| 0 <= j < later.len() ==> entry_name(#[trigger] later[j].0) != "config.ini"@,
    ensures
        archive_contents(entries + later) is Ok ==> archive_contents(entries) is Ok && archive_contents(
            entries + later,
        )->Ok_0.config_text == archive_contents(entries)->Ok_0.config_text,
    decreases later.len(),
{
    if later.len() > 0 {
        let init = later.drop_last();
        assert forall|j: int| 0 <= j < init.len() implies entry_name(#[trigger] init[j].0) != "config.ini"@ by {
            assert(init[j] == later[j]);
        }
        lemma_config_text_kept(entries, init);
        assert((entries + later).drop_last() == entries + init);
        assert((entries + later).last() == later.last());
        assert(entry_name(later[later.len() - 1].0) != "config.ini"@);
    } else {
        assert(entries + later == entries);
    }
}

/// The message that describes a model error.
pub open spec fn spec_model_message(e: ModelErrorView) -> Seq<char> {
    match e {
        ModelErrorView::ArchiveUnreadable => "Failed to read model archive"@,
        ModelErrorView::ArchiveEntryUnreadable => "Failed to read archive entry"@,
        ModelErrorView::ArchiveIo(text) => text,
        ModelErrorView::MissingConfigFile => "config.ini not found in model archive"@,
        ModelErrorView::ConfigSyntax => "Failed to parse config.ini"@,
        ModelErrorView::MissingOnnxFiles => "Model archive missing required ONNX files"@,
        ModelErrorView::MissingSection(s) => "Missing ["@ + spec_section_name(s) + "] section in config"@,
        ModelErrorView::MissingKey(k) => "Missing "@ + spec_key_name(k),
        ModelErrorView::InvalidNumber(_, kind) => spec_int_error_message(kind),
    }
}

impl ModelError {
    /// The message that describes the error.
    pub fn message(&self) -> (m: String)
        ensures
            m@ == spec_model_message(self@),
    {
        match self {
            ModelError::ArchiveUnreadable => String::from_str("Failed to read model archive"),
            ModelError::ArchiveEntryUnreadable => String::from_str("Failed to read archive entry"),
            ModelError::ArchiveIo(text) => text.clone(),
            ModelError::MissingConfigFile => String::from_str("config.ini not found in model archive"),
            ModelError::ConfigSyntax => String::from_str("Failed to parse config.ini"),
            ModelError::MissingOnnxFiles => String::from_str("Model archive missing required ONNX files"),
            ModelError::MissingSection(s) => String::from_str("Missing [").concat(s.name()).concat(
                "] section in config",
            ),
            ModelError::MissingKey(k) => String::from_str("Missing ").concat(k.name()),
            ModelError::InvalidNumber(_, kind) => String::from_str(kind.message()),
        }
    }
}

} // verus!
