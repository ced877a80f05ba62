use deepfilter_audio::model::{
    collect_archive_entries, load_model, read_df_config, ArchiveEntry, ConfigKey, ConfigSection,
    ModelError, NormSetting,
};
use deepfilter_audio::text::IntErrorKind;

const CONFIG: &str = "[df]\nsr = 48000\nhop_size = 480\nfft_size = 960\nnb_erb = 32\nnb_df = 96\nmin_nb_erb_freqs = 2\nnorm_tau = 1\n\n[deepfilternet]\ndf_order = 5\nconv_lookahead = 2\ndf_lookahead = 2\n";

fn archive(files: &[(&str, &[u8])]) -> Vec<u8> {
    let enc = flate2::write::GzEncoder::new(Vec::new(), flate2::Compression::default());
    let mut builder = tar::Builder::new(enc);
    for (name, data) in files {
        let mut header = tar::Header::new_gnu();
        header.set_size(data.len() as u64);
        header.set_mode(0o644);
        header.set_cksum();
        builder.append_data(&mut header, name, *data).unwrap();
    }
    builder.into_inner().unwrap().finish().unwrap()
}

fn full_archive(config: &str) -> Vec<u8> {
    archive(&[
        ("model/enc.onnx", b"ENC"),
        ("model/erb_dec.onnx", b"ERB"),
        ("model/df_dec.onnx", b"DF"),
        ("model/config.ini", config.as_bytes()),
    ])
}

#[test]
fn loads_networks_and_configuration() {
    let files = load_model(&full_archive(CONFIG)).ok().unwrap();
    assert_eq!(files.encoder, b"ENC");
    assert_eq!(files.erb_decoder, b"ERB");
    assert_eq!(files.df_decoder, b"DF");
    let c = files.config;
    assert_eq!((c.sr, c.hop_size, c.fft_size, c.nb_erb, c.nb_df), (48000, 480, 960, 32, 96));
    assert_eq!((c.min_nb_erb_freqs, c.df_order, c.conv_lookahead, c.df_lookahead), (2, 5, 2, 2));
    assert!(matches!(c.norm, NormSetting::Tau(ref t) if t == "1"));
}

#[test]
fn norm_alpha_takes_precedence_over_norm_tau() {
    let cfg = CONFIG.replace("norm_tau = 1", "norm_tau = 1\nnorm_alpha = 0.99");
    let files = load_model(&full_archive(&cfg)).ok().unwrap();
    assert!(matches!(files.config.norm, NormSetting::Alpha(ref t) if t == "0.99"));
}

#[test]
fn df_section_values_win_over_the_network_section() {
    let cfg = CONFIG.replace("[df]\n", "[df]\ndf_order = 3\n");
    let files = load_model(&full_archive(&cfg)).ok().unwrap();
    assert_eq!(files.config.df_order, 3);
}

#[test]
fn metadata_entries_are_skipped_and_parts_concatenated() {
    let data = archive(&[
        ("._enc.onnx", b"JUNK"),
        ("enc.onnx", b"EN"),
        ("x/enc.onnx", b"C"),
        ("erb_dec.onnx", b"ERB"),
        ("df_dec.onnx", b"DF"),
        ("config.ini", b"[broken"),
        ("config.ini", CONFIG.as_bytes()),
        ("README", b"ignored"),
    ]);
    let files = load_model(&data).ok().unwrap();
    assert_eq!(files.encoder, b"ENC");
    assert_eq!(files.config.sr, 48000);
}

#[test]
fn collects_entries_without_reading_an_archive() {
    let entries = vec![
        ArchiveEntry { path: "m/._df_dec.onnx".to_string(), data: Ok(vec![1]) },
        ArchiveEntry { path: "m/df_dec.onnx".to_string(), data: Ok(vec![2, 3]) },
        ArchiveEntry { path: "df_dec.onnx/..".to_string(), data: Ok(vec![4]) },
        ArchiveEntry { path: "a/b/config.ini".to_string(), data: Ok(b"a".to_vec()) },
        ArchiveEntry { path: "config.ini.bak".to_string(), data: Ok(b"b".to_vec()) },
    ];
    let files = collect_archive_entries(entries).ok().unwrap();
    assert_eq!(files.df_decoder, vec![2, 3]);
    assert!(files.encoder.is_empty());
    assert_eq!(files.config_text, "a");
}

#[test]
fn only_the_model_files_need_readable_data() {
    let entries = vec![
        ArchiveEntry { path: "._enc.onnx".to_string(), data: Err("bad block".to_string()) },
        ArchiveEntry { path: "README".to_string(), data: Err("bad block".to_string()) },
        ArchiveEntry { path: "enc.onnx".to_string(), data: Ok(vec![7]) },
    ];
    let files = collect_archive_entries(entries).ok().unwrap();
    assert_eq!(files.encoder, vec![7]);
    let entries = vec![
        ArchiveEntry { path: "enc.onnx".to_string(), data: Ok(vec![7]) },
        ArchiveEntry { path: "x/erb_dec.onnx".to_string(), data: Err("bad block".to_string()) },
        ArchiveEntry { path: "df_dec.onnx".to_string(), data: Err("later".to_string()) },
    ];
    assert_eq!(collect_archive_entries(entries).err(), Some("bad block".to_string()));
}

#[test]
fn reports_what_is_missing() {
    assert_eq!(load_model(b"not a gzip archive").err(), Some(ModelError::ArchiveEntryUnreadable));
    let no_config = archive(&[("enc.onnx", b"E"), ("erb_dec.onnx", b"E"), ("df_dec.onnx", b"E")]);
    assert_eq!(load_model(&no_config).err(), Some(ModelError::MissingConfigFile));
    let empty_config = full_archive("");
    assert_eq!(load_model(&empty_config).err(), Some(ModelError::MissingConfigFile));
    let bad_ini = full_archive("[df\nsr=1");
    assert_eq!(load_model(&bad_ini).err(), Some(ModelError::ConfigSyntax));
    let no_df = archive(&[("enc.onnx", b"E"), ("erb_dec.onnx", b"E"), ("config.ini", CONFIG.as_bytes())]);
    assert_eq!(load_model(&no_df).err(), Some(ModelError::MissingOnnxFiles));
}

#[test]
fn reports_configuration_errors_in_order() {
    let no_net = CONFIG.replace("[deepfilternet]", "[other]");
    assert_eq!(
        load_model(&full_archive(&no_net)).err(),
        Some(ModelError::MissingSection(ConfigSection::DeepFilterNet))
    );
    let bad_sr = CONFIG.replace("sr = 48000", "sr = fast").replace("hop_size = 480\n", "");
    assert_eq!(load_model(&full_archive(&bad_sr)).err(), Some(ModelError::InvalidNumber(ConfigKey::Sr, IntErrorKind::InvalidDigit)));
    let no_hop = CONFIG.replace("hop_size = 480\n", "");
    assert_eq!(load_model(&full_archive(&no_hop)).err(), Some(ModelError::MissingKey(ConfigKey::HopSize)));
    let no_norm = CONFIG.replace("norm_tau = 1\n", "");
    assert_eq!(load_model(&full_archive(&no_norm)).err(), Some(ModelError::MissingKey(ConfigKey::NormTau)));
}

#[test]
fn reads_configuration_from_a_parsed_document() {
    let doc = ini::Ini::load_from_str("[deepfilternet]\nconv_lookahead=1\n").unwrap();
    assert_eq!(read_df_config(&doc).err(), Some(ModelError::MissingSection(ConfigSection::Df)));
}

#[test]
fn error_messages() {
    assert_eq!(ModelError::MissingConfigFile.message(), "config.ini not found in model archive");
    assert_eq!(ModelError::MissingSection(ConfigSection::Df).message(), "Missing [df] section in config");
    assert_eq!(ModelError::MissingKey(ConfigKey::NbDf).message(), "Missing nb_df");
    assert_eq!(ModelError::MissingOnnxFiles.message(), "Model archive missing required ONNX files");
    assert_eq!(ModelError::ArchiveUnreadable.message(), "Failed to read model archive");
    assert_eq!(ModelError::ArchiveEntryUnreadable.message(), "Failed to read archive entry");
    assert_eq!(ModelError::ArchiveIo("unexpected end of file".to_string()).message(), "unexpected end of file");
    assert_eq!(
        ModelError::InvalidNumber(ConfigKey::Sr, IntErrorKind::InvalidDigit).message(),
        "fast".parse::<usize>().unwrap_err().to_string()
    );
}

#[test]
fn invalid_numbers_carry_the_parse_error() {
    let over = CONFIG.replace("nb_df = 96", "nb_df = 99999999999999999999");
    assert_eq!(
        load_model(&full_archive(&over)).err(),
        Some(ModelError::InvalidNumber(ConfigKey::NbDf, IntErrorKind::PosOverflow))
    );
    let empty = CONFIG.replace("fft_size = 960", "fft_size =");
    let err = load_model(&full_archive(&empty)).err().unwrap();
    assert_eq!(err, ModelError::InvalidNumber(ConfigKey::FftSize, IntErrorKind::Empty));
    assert_eq!(err.message(), "".parse::<usize>().unwrap_err().to_string());
}

#[test]
fn entries_are_recognised_by_their_file_name() {
    let data = archive(&[
        ("deep/dir/enc.onnx", b"E"),
        ("a/erb_dec.onnx", b"R"),
        ("b/df_dec.onnx", b"D"),
        ("cfg/config.ini", CONFIG.as_bytes()),
        ("cfg/._config.ini", b"[broken"),
    ]);
    let files = load_model(&data).ok().unwrap();
    assert_eq!(files.encoder, b"E");
    assert_eq!(files.config.nb_df, 96);
}

#[test]
fn reads_invalid_utf8_config_as_its_repaired_text() {
    let mut bad = b"# caf\xff\n".to_vec();
    bad.extend_from_slice(CONFIG.as_bytes());
    let repaired = String::from_utf8_lossy(&bad).into_owned();
    let files = |cfg: &[u8]| {
        archive(&[("enc.onnx", b"E"), ("erb_dec.onnx", b"R"), ("df_dec.onnx", b"D"), ("config.ini", cfg)])
    };
    let from_bad = load_model(&files(&bad)).ok().unwrap();
    let from_repaired = load_model(&files(repaired.as_bytes())).ok().unwrap();
    assert_eq!(from_bad.config.sr, from_repaired.config.sr);
    assert_eq!(from_bad.config.nb_df, 96);
    assert_eq!(from_bad.config.df_order, from_repaired.config.df_order);
}

#[test]
fn a_corrupt_stream_is_an_unreadable_entry() {
    let mut data = full_archive(CONFIG);
    data.truncate(data.len() / 2);
    let err = load_model(&data).err().unwrap();
    assert!(
        matches!(err, ModelError::ArchiveEntryUnreadable | ModelError::ArchiveIo(_)),
        "{err:?}"
    );
}
